//! A compilation unit: its functions, external functions and string pool.

use vstd::prelude::*;
use crate::functions::{IrFunction, IrFunctionSignature};
use crate::hir::TypeId;
use crate::ids::{IrFunctionId, SymbolId};
use crate::types::{IrSourceLocation, IrType};

verus! {

/// A function declared in the module but defined elsewhere.
#[derive(Debug)]
pub struct IrExternFunction {
    pub id: IrFunctionId,
    pub name: String,
    pub symbol_id: SymbolId,
    pub signature: IrFunctionSignature,
    /// Where the definition comes from (a runtime library).
    pub source: String,
}

/// The string constants of a module, each held once.
#[derive(Debug)]
pub struct StringPool {
    pub strings: Vec<String>,
}

/// Some string of `strings` has the characters `s`.
pub open spec fn pool_has(strings: Seq<String>, s: Seq<char>) -> bool {
    exists|j: int| 0 <= j < strings.len() && (#[trigger] strings[j])@ == s
}

impl StringPool {
    pub fn new() -> (r: StringPool)
        ensures
            r.strings@.len() == 0,
    {
        StringPool { strings: Vec::new() }
    }

    /// The index of `s` in the pool, adding it at the end if it is not there yet.
    pub fn add(&mut self, s: String) -> (r: u32)
        requires
            old(self).strings@.len() < u32::MAX,
        ensures
            pool_add_result(*old(self), *final(self), s, r),
    {
        let mut i: usize = 0;
        while i < self.strings.len()
            invariant
                i <= self.strings@.len(),
                self.strings@.len() < u32::MAX,
                forall|j: int| 0 <= j < i ==> self.strings@[j]@ != s@,
            decreases self.strings@.len() - i,
        {
            if self.strings[i] == s {
                return i as u32;
            }
            i = i + 1;
        }
        let r = self.strings.len() as u32;
        self.strings.push(s);
        r
    }
}

/// `b` is the pool `a` after adding `s`, which came back as index `r`: a
/// string the pool holds keeps the index of its first copy and leaves the
/// pool as it is; another one is appended.
pub open spec fn pool_add_result(a: StringPool, b: StringPool, s: String, r: u32) -> bool {
    &&& pool_has(a.strings@, s@) ==> {
        &&& b.strings == a.strings
        &&& r < a.strings@.len()
        &&& a.strings@[r as int]@ == s@
        &&& forall|j: int| 0 <= j < r ==> a.strings@[j]@ != s@
    }
    &&& !pool_has(a.strings@, s@) ==> {
        &&& b.strings@ == a.strings@.push(s)
        &&& r == a.strings@.len()
    }
}

/// Adding a string a second time leaves the pool as it is and gives back the
/// index of the first time.
pub proof fn lemma_pool_add_twice(p0: StringPool, p1: StringPool, p2: StringPool, s: String, r1: u32, r2: u32)
    requires
        pool_add_result(p0, p1, s, r1),
        pool_add_result(p1, p2, s, r2),
    ensures
        p2.strings@ == p1.strings@,
        r2 == r1,
{
    if !pool_has(p0.strings@, s@) {
        assert(p1.strings@[r1 as int] == s);
    }
    assert(pool_has(p1.strings@, s@));
    if r2 < r1 {
        assert(p1.strings@[r2 as int]@ != s@);
    } else if r1 < r2 {
        assert(p1.strings@[r1 as int]@ == s@);
    }
}

/// An IR module.
#[derive(Debug)]
pub struct IrModule {
    pub name: String,
    pub source_file: String,
    pub functions: Vec<IrFunction>,
    pub extern_functions: Vec<IrExternFunction>,
    pub string_pool: StringPool,
    pub next_function_id: u32,
    /// The type definitions that runtime type information is built from.
    pub types: Vec<IrTypeDef>,
    pub next_typedef_id: u32,
}

/// A type definition of a module.
#[derive(Clone, Copy, Debug, PartialEq, Eq, Hash, Structural)]
pub struct IrTypeDefId(pub u32);

/// A field of a struct or of an enum variant; `offset` is its byte offset,
/// where the layout is fixed.
#[derive(Debug, PartialEq)]
pub struct IrField {
    pub name: String,
    pub ty: IrType,
    pub offset: Option<u32>,
}

/// A variant of an enum, with its discriminant.
#[derive(Debug, PartialEq)]
pub struct IrEnumVariant {
    pub name: String,
    pub discriminant: i64,
    pub fields: Vec<IrField>,
}

/// What a type definition defines.
#[derive(Debug, PartialEq)]
pub enum IrTypeDefinition {
    Struct { fields: Vec<IrField>, packed: bool },
    Enum { variants: Vec<IrEnumVariant>, discriminant_type: IrType },
    Alias { aliased_type: IrType },
}

/// A type definition: the front-end type it describes and its layout.
#[derive(Debug, PartialEq)]
pub struct IrTypeDef {
    pub id: IrTypeDefId,
    pub name: String,
    pub type_id: TypeId,
    pub definition: IrTypeDefinition,
    pub source_location: IrSourceLocation,
}

/// The index of the first function of `fs` with id `id`, or -1 if there is none.
pub open spec fn fn_pos(fs: Seq<IrFunction>, id: IrFunctionId) -> int {
    if exists|i: int| is_first_fn(fs, id, i) {
        choose|i: int| is_first_fn(fs, id, i)
    } else {
        -1
    }
}

pub open spec fn is_first_fn(fs: Seq<IrFunction>, id: IrFunctionId, i: int) -> bool {
    &&& 0 <= i < fs.len()
    &&& fs[i].id == id
    &&& forall|j: int| 0 <= j < i ==> fs[j].id != id
}

pub proof fn lemma_fn_pos(fs: Seq<IrFunction>, id: IrFunctionId, i: int)
    requires
        is_first_fn(fs, id, i),
    ensures
        fn_pos(fs, id) == i,
{
    let k = choose|k: int| is_first_fn(fs, id, k);
    assert(is_first_fn(fs, id, k));
    if k < i {
        assert(fs[k].id != id);
    } else if k > i {
        assert(fs[i].id != id);
    }
}

pub proof fn lemma_first_fn_exists(fs: Seq<IrFunction>, id: IrFunctionId, j: int)
    requires
        0 <= j < fs.len(),
        fs[j].id == id,
    ensures
        exists|i: int| is_first_fn(fs, id, i),
    decreases j,
{
    if forall|q: int| 0 <= q < j ==> fs[q].id != id {
        assert(is_first_fn(fs, id, j));
    } else {
        let q = choose|q: int| 0 <= q < j && fs[q].id == id;
        lemma_first_fn_exists(fs, id, q);
    }
}

pub proof fn lemma_fn_pos_range(fs: Seq<IrFunction>, id: IrFunctionId)
    ensures
        -1 <= fn_pos(fs, id) < fs.len(),
        fn_pos(fs, id) >= 0 ==> fs[fn_pos(fs, id)].id == id,
        fn_pos(fs, id) == -1 ==> forall|j: int| 0 <= j < fs.len() ==> fs[j].id != id,
{
    if exists|i: int| is_first_fn(fs, id, i) {
        let k = choose|k: int| is_first_fn(fs, id, k);
        assert(is_first_fn(fs, id, k));
    } else {
        assert forall|j: int| 0 <= j < fs.len() implies fs[j].id != id by {
            if fs[j].id == id {
                lemma_first_fn_exists(fs, id, j);
            }
        }
    }
}

/// The index of `id` in `fs` depends only on the ids of the functions.
pub proof fn lemma_fn_pos_ids(a: Seq<IrFunction>, b: Seq<IrFunction>, id: IrFunctionId)
    requires
        a.len() == b.len(),
        forall|k: int| 0 <= k < a.len() ==> (#[trigger] b[k]).id == a[k].id,
    ensures
        fn_pos(a, id) == fn_pos(b, id),
{
    lemma_fn_pos_range(a, id);
    let i = fn_pos(a, id);
    if i >= 0 {
        assert(is_first_fn(a, id, i)) by {
            if !is_first_fn(a, id, i) {
                let j = choose|j: int| 0 <= j < i && a[j].id == id;
                lemma_first_fn_exists(a, id, j);
                let k = choose|k: int| is_first_fn(a, id, k);
                lemma_fn_pos(a, id, k);
            }
        }
        assert(is_first_fn(b, id, i));
        lemma_fn_pos(b, id, i);
    } else {
        lemma_fn_pos_range(b, id);
        if fn_pos(b, id) >= 0 {
            assert(a[fn_pos(b, id)].id == id);
        }
    }
}

impl IrModule {
    pub fn new(name: String, source_file: String) -> (r: IrModule)
        ensures
            r.name == name,
            r.source_file == source_file,
            r.functions@.len() == 0,
            r.extern_functions@.len() == 0,
            r.string_pool.strings@.len() == 0,
            r.next_function_id == 0,
            r.types@.len() == 0,
            r.next_typedef_id == 0,
    {
        IrModule {
            name,
            source_file,
            functions: Vec::new(),
            extern_functions: Vec::new(),
            string_pool: StringPool::new(),
            next_function_id: 0,
            types: Vec::new(),
            next_typedef_id: 0,
        }
    }

    /// A fresh type definition id.
    pub fn alloc_typedef_id(&mut self) -> (r: IrTypeDefId)
        requires
            old(self).next_typedef_id < u32::MAX,
        ensures
            r == IrTypeDefId(old(self).next_typedef_id),
            *final(self) == (IrModule { next_typedef_id: (old(self).next_typedef_id + 1) as u32, ..*old(self) }),
    {
        let r = IrTypeDefId(self.next_typedef_id);
        self.next_typedef_id = self.next_typedef_id + 1;
        r
    }

    /// Adds a type definition.
    pub fn add_type(&mut self, typedef: IrTypeDef)
        ensures
            final(self).types@ == old(self).types@.push(typedef),
            *final(self) == (IrModule { types: final(self).types, ..*old(self) }),
    {
        self.types.push(typedef);
    }

    /// Every function id of the module was handed out by `alloc_function_id`.
    pub open spec fn wf(&self) -> bool {
        &&& forall|k: int| 0 <= k < self.functions@.len() ==> (#[trigger] self.functions@[k]).id.0 < self.next_function_id
        &&& forall|k: int| 0 <= k < self.extern_functions@.len() ==> (#[trigger] self.extern_functions@[k]).id.0 < self.next_function_id
    }

    /// A fresh function id.
    pub fn alloc_function_id(&mut self) -> (r: IrFunctionId)
        requires
            old(self).next_function_id < u32::MAX,
        ensures
            r == IrFunctionId(old(self).next_function_id),
            *final(self) == (IrModule { next_function_id: (old(self).next_function_id + 1) as u32, ..*old(self) }),
    {
        let r = IrFunctionId(self.next_function_id);
        self.next_function_id = self.next_function_id + 1;
        r
    }

    pub fn add_function(&mut self, function: IrFunction)
        ensures
            final(self).functions@ == old(self).functions@.push(function),
            *final(self) == (IrModule { functions: final(self).functions, ..*old(self) }),
    {
        self.functions.push(function);
    }

    /// The index of the function `id`.
    pub fn find_function(&self, id: IrFunctionId) -> (r: Option<usize>)
        ensures
            match r {
                Some(i) => i == fn_pos(self.functions@, id) && i < self.functions@.len(),
                None => fn_pos(self.functions@, id) == -1,
            },
    {
        let mut i: usize = 0;
        while i < self.functions.len()
            invariant
                i <= self.functions@.len(),
                forall|j: int| 0 <= j < i ==> self.functions@[j].id != id,
            decreases self.functions@.len() - i,
        {
            if self.functions[i].id == id {
                proof { lemma_fn_pos(self.functions@, id, i as int); }
                return Some(i);
            }
            i = i + 1;
        }
        None
    }

    pub fn get_function(&self, id: IrFunctionId) -> (r: Option<&IrFunction>)
        ensures
            match r {
                Some(f) => fn_pos(self.functions@, id) >= 0 && *f == self.functions@[fn_pos(self.functions@, id)],
                None => fn_pos(self.functions@, id) == -1,
            },
    {
        match self.find_function(id) {
            Some(i) => Some(&self.functions[i]),
            None => None,
        }
    }
}

} // verus!
