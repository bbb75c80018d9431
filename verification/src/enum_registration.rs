//! The enums whose runtime type information lowering records as it meets
//! them: each with a runtime type id, its name and its variants' names.

use vstd::prelude::*;
use crate::hir::TypeId;
use crate::ids::SymbolId;
use crate::lowering::HirToMirContext;
use crate::text::{decimal, push_decimal};
use crate::type_metadata::{insert_by_symbol, map_get};

verus! {

/// The names that are known among `names`, in order.
pub open spec fn known_names(names: Seq<Option<String>>) -> Seq<Seq<char>>
    decreases names.len(),
{
    if names.len() == 0 {
        Seq::empty()
    } else {
        known_names(names.drop_last()) + match names.last() {
            Some(n) => seq![n@],
            None => Seq::empty(),
        }
    }
}

/// The name recorded for an enum: its symbol's name, or `Enum_` and the
/// symbol's number.
pub open spec fn enum_record_name(sym: SymbolId, name: Option<String>) -> Seq<char> {
    match name {
        Some(n) => n@,
        None => "Enum_"@ + decimal(sym.0 as nat),
    }
}

/// `e` is the record of enum `sym`: runtime type id 1000 past the symbol's
/// number, its name, and the names of its variants that the symbol table
/// knows.
pub open spec fn is_enum_record(
    e: (u32, String, Vec<String>),
    sym: SymbolId,
    name: Option<String>,
    variant_names: Option<Vec<Option<String>>>,
) -> bool {
    &&& e.0 == sym.0 + 1000
    &&& e.1@ == enum_record_name(sym, name)
    &&& e.2@.map_values(|s: String| s@) == match variant_names {
        Some(v) => known_names(v@),
        None => Seq::empty(),
    }
}

impl HirToMirContext {
    /// Records enum `enum_symbol_id` (of type `_type_id`) for runtime type
    /// information, unless it is recorded already. `enum_name` is the name the symbol table
    /// gives it, and `variant_names` the names it gives its variants, where
    /// it knows the enum's variants.
    pub fn record_enum_for_registration(
        &mut self,
        enum_symbol_id: SymbolId,
        _type_id: TypeId,
        enum_name: &Option<String>,
        variant_names: &Option<Vec<Option<String>>>,
    )
        requires
            enum_symbol_id.0 + 1000 <= u32::MAX,
        ensures
            map_get(old(self).enums_for_registration@, enum_symbol_id) is Some ==> *final(self) == *old(self),
            map_get(old(self).enums_for_registration@, enum_symbol_id) is None ==> {
                &&& *final(self) == (HirToMirContext {
                    enums_for_registration: final(self).enums_for_registration,
                    ..*old(self)
                })
                &&& map_get(final(self).enums_for_registration@, enum_symbol_id) matches Some(e) && is_enum_record(
                    e,
                    enum_symbol_id,
                    *enum_name,
                    *variant_names,
                )
                &&& forall|s: SymbolId|
                    s != enum_symbol_id ==> #[trigger] map_get(final(self).enums_for_registration@, s) == map_get(
                        old(self).enums_for_registration@,
                        s,
                    )
            },
    {
        if self.contains_enum(enum_symbol_id) {
            return;
        }
        let runtime_type_id = enum_symbol_id.0 + 1000;
        let name = match enum_name {
            Some(n) => n.clone(),
            None => {
                let mut s = "Enum_".to_owned();
                push_decimal(&mut s, enum_symbol_id.0 as usize);
                s
            },
        };
        let mut variants: Vec<String> = Vec::new();
        match variant_names {
            Some(v) => {
                let mut i: usize = 0;
                while i < v.len()
                    invariant
                        i <= v@.len(),
                        variants@.map_values(|s: String| s@) == known_names(v@.take(i as int)),
                    decreases v@.len() - i,
                {
                    let ghost before = variants@;
                    match &v[i] {
                        Some(n) => {
                            variants.push(n.clone());
                        },
                        None => {},
                    }
                    proof {
                        assert(v@.take(i + 1).drop_last() =~= v@.take(i as int));
                        assert(variants@.map_values(|s: String| s@) =~= known_names(v@.take(i + 1)));
                    }
                    i = i + 1;
                }
                proof {
                    assert(v@.take(v@.len() as int) =~= v@);
                }
            },
            None => {
                proof {
                    assert(variants@.map_values(|s: String| s@) =~= Seq::<Seq<char>>::empty());
                }
            },
        }
        insert_by_symbol(&mut self.enums_for_registration, enum_symbol_id, (runtime_type_id, name, variants));
    }

    /// Whether enum `sym` is recorded.
    fn contains_enum(&self, sym: SymbolId) -> (r: bool)
        ensures
            r == map_get(self.enums_for_registration@, sym) is Some,
    {
        let ghost p = crate::type_metadata::key_entry::<SymbolId, (u32, String, Vec<String>)>(sym);
        let mut i: usize = 0;
        while i < self.enums_for_registration.len()
            invariant
                i <= self.enums_for_registration@.len(),
                p == crate::type_metadata::key_entry::<SymbolId, (u32, String, Vec<String>)>(sym),
                forall|j: int| 0 <= j < i ==> !p(#[trigger] self.enums_for_registration@[j]),
            decreases self.enums_for_registration@.len() - i,
        {
            if self.enums_for_registration[i].0 == sym {
                proof {
                    assert(crate::externs::is_first_where(self.enums_for_registration@, p, i as int));
                    crate::externs::lemma_first_where(self.enums_for_registration@, p, i as int);
                }
                return true;
            }
            i = i + 1;
        }
        proof {
            crate::externs::lemma_first_where_none(self.enums_for_registration@, p);
        }
        false
    }

    /// The enums recorded for runtime type information.
    pub fn get_enums_for_registration(&self) -> (r: &Vec<(SymbolId, (u32, String, Vec<String>))>)
        ensures
            *r == self.enums_for_registration,
    {
        &self.enums_for_registration
    }
}

} // verus!
