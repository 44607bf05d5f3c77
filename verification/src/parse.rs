//! The manifest codec, parsing side: run manifest text as a script in a
//! sandboxed interpreter, then coerce the populated root table into the
//! typed schema.
//!
//! The interpreter is created fresh per call, with no standard libraries
//! loaded and nothing exposed but the root config table, so a manifest
//! script can populate data and nothing else: no filesystem, no network, no
//! process control.

use crate::error::KraitError;
use crate::luaval::LuaValue;
use crate::manifest::Manifest;
use crate::schema::lemma_decode_wf;
use vstd::prelude::*;

verus! {

#[verifier::external_type_specification]
#[verifier::external_body]
pub struct ExLuaValue(mlua::Value);

#[verifier::external_type_specification]
#[verifier::external_body]
pub struct ExLuaError(mlua::Error);

/// How many table levels of a script value are read into plain data. The
/// manifest schema is five levels deep; far deeper tables are tolerated, and
/// read as opaque values rather than recursed into without bound.
pub const VALUE_DEPTH: u32 = 32;

/// Relies on mlua's value accessors: converts one script value into plain
/// data, one variant per arm, down to `depth` table levels. Deeper tables
/// and kinds outside the schema (functions, userdata, non-integer numbers)
/// become `Other`.
#[verifier::external_body]
fn lua_to_value(v: &mlua::Value, depth: u32) -> (r: LuaValue) {
    match v {
        mlua::Value::Nil => LuaValue::Nil,
        mlua::Value::Boolean(b) => LuaValue::Bool(*b),
        mlua::Value::Integer(n) => LuaValue::Int(*n),
        mlua::Value::String(s) => LuaValue::Str(s.to_string_lossy()),
        mlua::Value::Table(t) if depth > 0 => LuaValue::Table(
            t.pairs::<mlua::Value, mlua::Value>().flatten().map(
                |(k, v)| (lua_to_value(&k, depth - 1), lua_to_value(&v, depth - 1)),
            ).collect(),
        ),
        _ => LuaValue::Other,
    }
}

/// Relies on mlua (vendored Lua 5.4): runs the manifest script in a fresh
/// interpreter with no standard libraries loaded and the file-reading base
/// functions removed, exposing only the root config table, and hands the
/// populated manifest table back as plain data.
#[verifier::external_body]
fn lua_eval_inner(script: &str, depth: u32) -> (r: Result<LuaValue, mlua::Error>) {
    let lua = mlua::Lua::new_with(mlua::StdLib::NONE, mlua::LuaOptions::default())?;
    lua.load("dofile = nil loadfile = nil load = nil print = nil").exec()?;
    let krait = lua.create_table()?;
    krait.set("manifest", lua.create_table()?)?;
    lua.globals().set("krait", krait)?;
    lua.load(script).exec()?;
    let krait: mlua::Table = lua.globals().get("krait")?;
    let manifest: mlua::Value = krait.get("manifest")?;
    Ok(lua_to_value(&manifest, depth))
}

/// Relies on mlua's error rendering: the same run, with the error as text.
#[verifier::external_body]
fn lua_eval_manifest(script: &str, depth: u32) -> (r: Result<LuaValue, String>) {
    match lua_eval_inner(script, depth) {
        Ok(v) => Ok(v),
        Err(e) => Err(e.to_string()),
    }
}

impl Manifest {
    /// Parse manifest text: execute it as a script against the root table,
    /// then coerce the populated table into the schema. A script that fails
    /// to run and a table that cannot be coerced are both
    /// `ManifestParseError`; a parsed manifest always satisfies the key
    /// uniqueness invariant.
    pub fn parse(s: String) -> (r: Result<Manifest, KraitError>)
        ensures
            r matches Err(e) ==> e@ is ManifestParseError,
            r matches Ok(m) ==> m.wf(),
    {
        match lua_eval_manifest(s.as_str(), VALUE_DEPTH) {
            Ok(v) => match Manifest::from_value(&v) {
                Ok(m) => {
                    proof {
                        lemma_decode_wf(v.lua_view());
                    }
                    Ok(m)
                },
                Err(e) => Err(e),
            },
            Err(msg) => Err(KraitError::ManifestParseError(msg)),
        }
    }
}

} // verus!
