//! A plain model of the values a manifest script can produce: nil, booleans,
//! integers, strings and key-value tables. Anything else a script can build
//! (functions, userdata, non-integer numbers) is carried as `Other` and
//! tolerated, never an error by itself.

use vstd::prelude::*;

verus! {

/// One script value, as plain data.
pub enum LuaValue {
    Nil,
    Bool(bool),
    Int(i64),
    Str(String),
    Table(Vec<(LuaValue, LuaValue)>),
    Other,
}

/// Mathematical shape of a script value.
#[verifier::ext_equal]
pub enum LuaValueV {
    Nil,
    Bool(bool),
    Int(int),
    Str(Seq<char>),
    Table(Seq<(LuaValueV, LuaValueV)>),
    Other,
}

impl LuaValue {
    /// The value's mathematical shape.
    pub open spec fn lua_view(&self) -> LuaValueV
        decreases self,
        via Self::lua_view_decreases
    {
        match self {
            LuaValue::Nil => LuaValueV::Nil,
            LuaValue::Bool(b) => LuaValueV::Bool(*b),
            LuaValue::Int(n) => LuaValueV::Int(*n as int),
            LuaValue::Str(s) => LuaValueV::Str(s@),
            LuaValue::Table(kvs) => LuaValueV::Table(
                Seq::new(
                    kvs@.len(),
                    |i: int|
                        if 0 <= i < kvs@.len() {
                            (kvs@[i].0.lua_view(), kvs@[i].1.lua_view())
                        } else {
                            (LuaValueV::Nil, LuaValueV::Nil)
                        },
                ),
            ),
            LuaValue::Other => LuaValueV::Other,
        }
    }

    #[via_fn]
    proof fn lua_view_decreases(&self) {
        broadcast use vstd::std_specs::vec::group_vec_axioms;

        match self {
            LuaValue::Table(kvs) => {
                assert forall|i: int| 0 <= i < kvs@.len() implies decreases_to!(*self => kvs@[i].0)
                    && decreases_to!(*self => kvs@[i].1) by {
                    assert(decreases_to!(*self => *kvs));
                    assert(decreases_to!(*kvs => kvs[i]));
                }
            },
            _ => {
            },
        }
    }
}

impl DeepView for LuaValue {
    type V = LuaValueV;

    open spec fn deep_view(&self) -> LuaValueV {
        self.lua_view()
    }
}

/// A table value's shape is the shape of its pair list.
pub proof fn lemma_lua_table_view(kvs: Vec<(LuaValue, LuaValue)>)
    ensures
        LuaValue::Table(kvs).lua_view() == LuaValueV::Table(kvs.deep_view()),
{
    let v = LuaValue::Table(kvs).lua_view();
    match v {
        LuaValueV::Table(inner) => {
            assert forall|i: int| 0 <= i < kvs@.len() implies inner[i] == kvs.deep_view()[i] by {
                assert(kvs.deep_view()[i] == kvs@[i].deep_view());
                assert(kvs@[i].deep_view() == (kvs@[i].0.lua_view(), kvs@[i].1.lua_view()));
            }
            assert(inner =~= kvs.deep_view());
        },
        _ => {
            assert(false);
        },
    }
}

} // verus!
