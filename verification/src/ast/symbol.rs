//! Symbol tables and frame data.
//!
//! Tables are kept in an arena (`Scopes`) and named by their index there, so
//! that every part of the tree that was parsed in a scope sees the table of
//! that scope as it stands once parsing is done.

use vstd::prelude::*;
use crate::bytecode::Symbol;
use crate::ast::transformers::typeck::TypeInformation;

verus! {

/// An index into the tables of a `Scopes`.
pub type ExtSymbolTable = usize;

/// An index into the frame data of a `Scopes`.
pub type ExtFrameData = usize;

/// Frame data seen mathematically.
pub struct FrameView {
    pub params: nat,
    pub locals: nat,
    pub ret: Option<TypeInformation>,
}

/// The counts of parameters and locals of the function being parsed.
#[derive(Debug)]
pub struct FrameData {
    total_params: usize,
    total_locals: usize,
    return_ty: Option<TypeInformation>,
}

impl View for FrameData {
    type V = FrameView;

    closed spec fn view(&self) -> FrameView {
        FrameView { params: self.total_params as nat, locals: self.total_locals as nat, ret: self.return_ty }
    }
}

/// Frame data with no parameters and no locals.
pub open spec fn fresh_frame() -> FrameView {
    FrameView { params: 0, locals: 0, ret: None }
}

impl FrameData {
    pub fn new() -> (r: FrameData)
        ensures
            r@ == fresh_frame(),
    {
        FrameData { total_params: 0, total_locals: 0, return_ty: None }
    }

    /// The return type that return expressions are checked against.
    pub fn return_ty(&self) -> (r: &Option<TypeInformation>)
        ensures
            *r == self@.ret,
    {
        &self.return_ty
    }

    /// Takes a new local slot; the parameters occupy the first slots.
    pub fn new_local(&mut self) -> (r: usize)
        requires
            old(self)@.params + old(self)@.locals < usize::MAX,
        ensures
            r == old(self)@.params + old(self)@.locals,
            final(self)@ == (FrameView { locals: old(self)@.locals + 1, ..old(self)@ }),
    {
        let li = self.total_locals + self.total_params;
        self.total_locals = self.total_locals + 1;
        li
    }

    pub fn total_locals(&self) -> (r: usize)
        ensures
            r == self@.locals,
    {
        self.total_locals
    }

    /// Takes a new parameter slot.
    pub fn new_function_variable(&mut self) -> (r: usize)
        requires
            old(self)@.params < usize::MAX,
        ensures
            r == old(self)@.params,
            final(self)@ == (FrameView { params: old(self)@.params + 1, ..old(self)@ }),
    {
        let li = self.total_params;
        self.total_params = self.total_params + 1;
        li
    }

    pub fn total_params(&self) -> (r: usize)
        ensures
            r == self@.params,
    {
        self.total_params
    }
}

impl Default for FrameData {
    fn default() -> (r: FrameData)
        ensures
            r@ == fresh_frame(),
    {
        FrameData::new()
    }
}

/// The key of a symbol: the scope level it was declared at, and its name.
#[derive(Debug)]
pub struct SymbolKey(pub usize, pub Symbol);

/// What a name stands for.
#[derive(Debug)]
pub enum SymbolData {
    Type { ty: TypeInformation },
    GlobalVariable { ty: TypeInformation },
    LocalVariable { ty: TypeInformation, scope_level: usize, slot: usize },
}

/// The type of what a name stands for.
pub open spec fn data_ty(d: SymbolData) -> TypeInformation {
    match d {
        SymbolData::Type { ty } => ty,
        SymbolData::GlobalVariable { ty } => ty,
        SymbolData::LocalVariable { ty, .. } => ty,
    }
}

impl SymbolData {
    pub fn ty(&self) -> (r: &TypeInformation)
        ensures
            *r == data_ty(*self),
    {
        match self {
            SymbolData::Type { ty } => ty,
            SymbolData::GlobalVariable { ty } => ty,
            SymbolData::LocalVariable { ty, .. } => ty,
        }
    }

    /// A copy of this data.
    pub fn duplicate(&self) -> (r: SymbolData)
        ensures
            r == *self,
    {
        match self {
            SymbolData::Type { ty } => SymbolData::Type { ty: ty.duplicate() },
            SymbolData::GlobalVariable { ty } => SymbolData::GlobalVariable { ty: ty.duplicate() },
            SymbolData::LocalVariable { ty, scope_level, slot } => SymbolData::LocalVariable {
                ty: ty.duplicate(),
                scope_level: *scope_level,
                slot: *slot,
            },
        }
    }
}

/// An entry of a table seen mathematically: level, name and data.
pub type EntryView = (nat, Seq<char>, SymbolData);

/// The data of the last entry of `entries` whose key is `level` and `name`.
pub open spec fn find_entry(entries: Seq<EntryView>, level: nat, name: Seq<char>) -> Option<SymbolData>
    decreases entries.len(),
{
    if entries.len() == 0 {
        None
    } else if entries.last().0 == level && entries.last().1 == name {
        Some(entries.last().2)
    } else {
        find_entry(entries.drop_last(), level, name)
    }
}

/// A symbol table seen mathematically: its entries, oldest first (a later
/// entry hides an earlier one with the same key), the table that encloses it,
/// the level at which new symbols are entered, and its count of locals.
pub struct TableView {
    pub entries: Seq<EntryView>,
    pub enclosing: Option<ExtSymbolTable>,
    pub depth: nat,
    pub locals: nat,
}

impl TableView {
    /// The data of `name` at `level` in this table alone.
    pub open spec fn lookup(self, level: nat, name: Seq<char>) -> Option<SymbolData> {
        find_entry(self.entries, level, name)
    }
}

/// The empty table enclosed by `enclosing`.
pub open spec fn empty_table(enclosing: Option<ExtSymbolTable>) -> TableView {
    TableView { entries: seq![], enclosing, depth: 0, locals: 0 }
}

/// The table that knows the four built-in types.
pub open spec fn default_table() -> TableView {
    TableView {
        entries: seq![
            (0, "Int"@, SymbolData::Type { ty: TypeInformation::Int }),
            (0, "String"@, SymbolData::Type { ty: TypeInformation::String }),
            (0, "Bool"@, SymbolData::Type { ty: TypeInformation::Boolean }),
            (0, "Float"@, SymbolData::Type { ty: TypeInformation::Float }),
        ],
        enclosing: None,
        depth: 0,
        locals: 0,
    }
}

/// The table `t` with `name` entered with `data` at its current level.
pub open spec fn inserted(t: TableView, name: Seq<char>, data: SymbolData) -> TableView {
    TableView { entries: t.entries.push((t.depth, name, data)), ..t }
}

/// The names declared in one scope.
#[derive(Debug)]
pub struct SymbolTable {
    entries: Vec<(SymbolKey, SymbolData)>,
    enclosing: Option<ExtSymbolTable>,
    scope_depth: usize,
    total_locals: usize,
}

/// The view of an entry.
pub open spec fn entry_view(e: (SymbolKey, SymbolData)) -> EntryView {
    (e.0.0 as nat, e.0.1@, e.1)
}

impl View for SymbolTable {
    type V = TableView;

    closed spec fn view(&self) -> TableView {
        TableView {
            entries: self.entries@.map_values(|e: (SymbolKey, SymbolData)| entry_view(e)),
            enclosing: self.enclosing,
            depth: self.scope_depth as nat,
            locals: self.total_locals as nat,
        }
    }
}

impl SymbolTable {
    pub fn new() -> (r: SymbolTable)
        ensures
            r@ == empty_table(None),
    {
        let r = SymbolTable { entries: Vec::new(), enclosing: None, scope_depth: 0, total_locals: 0 };
        assert(r@.entries =~= Seq::<EntryView>::empty());
        r
    }

    pub fn new_enclosed(enclosing: ExtSymbolTable) -> (r: SymbolTable)
        ensures
            r@ == empty_table(Some(enclosing)),
    {
        let r = SymbolTable { entries: Vec::new(), enclosing: Some(enclosing), scope_depth: 0, total_locals: 0 };
        assert(r@.entries =~= Seq::<EntryView>::empty());
        r
    }

    /// Enters `tk` with `data` at the current level, hiding what it stood for
    /// there before, and returns that level.
    pub fn insert_symbol(&mut self, tk: Symbol, data: SymbolData) -> (r: usize)
        ensures
            r == old(self)@.depth,
            final(self)@ == inserted(old(self)@, tk@, data),
    {
        let sd = self.scope_depth;
        self.entries.push((SymbolKey(sd, tk), data));
        assert(self@.entries =~= old(self)@.entries.push((old(self)@.depth, tk@, data)));
        sd
    }

    /// Sets what `key` stands for, and returns what it stood for before.
    pub fn modify_symbol_data(&mut self, key: SymbolKey, data: SymbolData) -> (r: Option<SymbolData>)
        ensures
            r == old(self)@.lookup(key.0 as nat, key.1@),
            final(self)@ == (TableView { entries: old(self)@.entries.push((key.0 as nat, key.1@, data)), ..old(self)@ }),
    {
        let prev = self.find(key.0, &key.1);
        let ghost kv = (key.0 as nat, key.1@, data);
        self.entries.push((key, data));
        assert(self@.entries =~= old(self)@.entries.push(kv));
        prev
    }

    pub fn inc_scope_depth(&mut self)
        requires
            old(self)@.depth < usize::MAX,
        ensures
            final(self)@ == (TableView { depth: old(self)@.depth + 1, ..old(self)@ }),
    {
        self.scope_depth = self.scope_depth + 1;
    }

    pub fn scope_depth(&self) -> (r: usize)
        ensures
            r == self@.depth,
    {
        self.scope_depth
    }

    pub fn dec_scope_depth(&mut self)
        requires
            old(self)@.depth > 0,
        ensures
            final(self)@ == (TableView { depth: (old(self)@.depth - 1) as nat, ..old(self)@ }),
    {
        self.scope_depth = self.scope_depth - 1;
    }

    pub fn new_local(&mut self) -> (r: usize)
        requires
            old(self)@.locals < usize::MAX,
        ensures
            r == old(self)@.locals,
            final(self)@ == (TableView { locals: old(self)@.locals + 1, ..old(self)@ }),
    {
        let li = self.total_locals;
        self.total_locals = self.total_locals + 1;
        li
    }

    pub fn total_locals(&self) -> (r: usize)
        ensures
            r == self@.locals,
    {
        self.total_locals
    }

    pub fn enclosing(&self) -> (r: Option<ExtSymbolTable>)
        ensures
            r == self@.enclosing,
    {
        self.enclosing
    }

    /// The data of `tk` at `level` in this table alone.
    pub fn find(&self, level: usize, tk: &Symbol) -> (r: Option<SymbolData>)
        ensures
            r == self@.lookup(level as nat, tk@),
    {
        let ghost ents = self@.entries;
        let mut i = self.entries.len();
        assert(ents.subrange(0, i as int) =~= ents);
        while i > 0
            invariant
                i <= self.entries@.len(),
                ents == self@.entries,
                ents.len() == self.entries@.len(),
                forall|j: int| 0 <= j < ents.len() ==> #[trigger] ents[j] == entry_view(self.entries@[j]),
                find_entry(ents, level as nat, tk@) == find_entry(ents.subrange(0, i as int), level as nat, tk@),
            decreases i,
        {
            let ghost prefix = ents.subrange(0, i as int);
            let e = &self.entries[i - 1];
            assert(prefix.last() == ents[i - 1]);
            if e.0.0 == level && e.0.1.same(tk) {
                return Some(e.1.duplicate());
            }
            assert(prefix.drop_last() =~= ents.subrange(0, i - 1));
            i = i - 1;
        }
        None
    }

    /// The data of `tk` at level `sd` or below, in this table and then in the
    /// tables enclosing it.
    pub fn get_symbol_data(&self, scopes: &Scopes, tk: &Symbol, sd: usize) -> (r: Option<SymbolData>)
        ensures
            r == table_resolve(scopes.tables(), self@, tk@, sd as nat),
        decreases sd,
    {
        match self.find(sd, tk) {
            Some(d) => Some(d),
            None => {
                if sd == 0 {
                    match self.enclosing {
                        Some(j) => {
                            if j < scopes.tables.len() {
                                scopes.get_symbol_data(j, tk, 0)
                            } else {
                                None
                            }
                        },
                        None => None,
                    }
                } else {
                    self.get_symbol_data(scopes, tk, sd - 1)
                }
            },
        }
    }
}

impl Default for SymbolTable {
    /// A table that knows the four built-in types.
    fn default() -> (r: SymbolTable)
        ensures
            r@ == default_table(),
    {
        let mut symbol_table = SymbolTable::new();
        symbol_table.insert_symbol(Symbol::from_str("Int"), SymbolData::Type { ty: TypeInformation::Int });
        symbol_table.insert_symbol(
            Symbol::from_str("String"),
            SymbolData::Type { ty: TypeInformation::String },
        );
        symbol_table.insert_symbol(Symbol::from_str("Bool"), SymbolData::Type { ty: TypeInformation::Boolean });
        symbol_table.insert_symbol(Symbol::from_str("Float"), SymbolData::Type { ty: TypeInformation::Float });
        assert(symbol_table@.entries =~= default_table().entries);
        symbol_table
    }
}

/// The data of `name` at level `sd` or below in table `i` of `tables`, and
/// failing that at level 0 of the tables that enclose it.
pub open spec fn resolve_at(tables: Seq<TableView>, i: nat, name: Seq<char>, sd: nat) -> Option<SymbolData>
    decreases i, sd,
{
    if i >= tables.len() {
        None
    } else {
        match tables[i as int].lookup(sd, name) {
            Some(d) => Some(d),
            None => {
                if sd == 0 {
                    match tables[i as int].enclosing {
                        Some(j) => {
                            if (j as nat) < i {
                                resolve_at(tables, j as nat, name, 0)
                            } else {
                                None
                            }
                        },
                        None => None,
                    }
                } else {
                    resolve_at(tables, i, name, (sd - 1) as nat)
                }
            },
        }
    }
}

/// As `resolve_at`, for a table `t` that need not be one of `tables`.
pub open spec fn table_resolve(tables: Seq<TableView>, t: TableView, name: Seq<char>, sd: nat) -> Option<SymbolData>
    decreases sd,
{
    match t.lookup(sd, name) {
        Some(d) => Some(d),
        None => {
            if sd == 0 {
                match t.enclosing {
                    Some(j) => {
                        if (j as nat) < tables.len() {
                            resolve_at(tables, j as nat, name, 0)
                        } else {
                            None
                        }
                    },
                    None => None,
                }
            } else {
                table_resolve(tables, t, name, (sd - 1) as nat)
            }
        },
    }
}

/// The number of tables that enclose table `i`.
pub open spec fn nesting(tables: Seq<TableView>, i: nat) -> nat
    decreases i,
{
    if i >= tables.len() {
        0
    } else {
        match tables[i as int].enclosing {
            Some(j) => if (j as nat) < i {
                1 + nesting(tables, j as nat)
            } else {
                0
            },
            None => 0,
        }
    }
}

/// Every table is enclosed only by a table made before it.
pub open spec fn tables_wf(tables: Seq<TableView>) -> bool {
    forall|i: int|
        0 <= i < tables.len() ==> match #[trigger] tables[i].enclosing {
            Some(j) => j < i,
            None => true,
        }
}

/// All the symbol tables and frame data made while parsing.
#[derive(Debug)]
pub struct Scopes {
    tables: Vec<SymbolTable>,
    frames: Vec<FrameData>,
}

impl Scopes {
    pub closed spec fn tables(&self) -> Seq<TableView> {
        self.tables@.map_values(|t: SymbolTable| t@)
    }

    pub closed spec fn frames(&self) -> Seq<FrameView> {
        self.frames@.map_values(|f: FrameData| f@)
    }

    pub fn new() -> (r: Scopes)
        ensures
            r.tables() == Seq::<TableView>::empty(),
            r.frames() == Seq::<FrameView>::empty(),
    {
        let r = Scopes { tables: Vec::new(), frames: Vec::new() };
        assert(r.tables() =~= Seq::<TableView>::empty());
        assert(r.frames() =~= Seq::<FrameView>::empty());
        r
    }

    /// Adds a table and returns its index.
    pub fn push_table(&mut self, t: SymbolTable) -> (r: ExtSymbolTable)
        ensures
            r == old(self).tables().len(),
            final(self).tables() == old(self).tables().push(t@),
            final(self).frames() == old(self).frames(),
    {
        let r = self.tables.len();
        self.tables.push(t);
        assert(self.tables() =~= old(self).tables().push(t@));
        r
    }

    /// Adds frame data and returns its index.
    pub fn push_frame(&mut self, f: FrameData) -> (r: ExtFrameData)
        ensures
            r == old(self).frames().len(),
            final(self).frames() == old(self).frames().push(f@),
            final(self).tables() == old(self).tables(),
    {
        let r = self.frames.len();
        self.frames.push(f);
        assert(self.frames() =~= old(self).frames().push(f@));
        r
    }

    /// The number of tables.
    pub fn table_count(&self) -> (r: usize)
        ensures
            r == self.tables().len(),
    {
        self.tables.len()
    }

    /// The number of frames.
    pub fn frame_count(&self) -> (r: usize)
        ensures
            r == self.frames().len(),
    {
        self.frames.len()
    }

    pub fn table(&self, tbl: ExtSymbolTable) -> (r: &SymbolTable)
        requires
            tbl < self.tables().len(),
        ensures
            r@ == self.tables()[tbl as int],
    {
        &self.tables[tbl]
    }

    pub fn frame(&self, fd: ExtFrameData) -> (r: &FrameData)
        requires
            fd < self.frames().len(),
        ensures
            r@ == self.frames()[fd as int],
    {
        &self.frames[fd]
    }

    /// Enters `tk` with `data` in table `tbl` at that table's current level,
    /// and returns that level.
    pub fn insert_symbol(&mut self, tbl: ExtSymbolTable, tk: Symbol, data: SymbolData) -> (r: usize)
        requires
            tbl < old(self).tables().len(),
        ensures
            r == old(self).tables()[tbl as int].depth,
            final(self).tables() == old(self).tables().update(
                tbl as int,
                inserted(old(self).tables()[tbl as int], tk@, data),
            ),
            final(self).frames() == old(self).frames(),
    {
        let ghost name = tk@;
        let r = self.tables[tbl].insert_symbol(tk, data);
        assert(self.tables() =~= old(self).tables().update(
            tbl as int,
            inserted(old(self).tables()[tbl as int], name, data),
        ));
        assert(self.frames() =~= old(self).frames());
        r
    }

    /// Takes a new local slot in frame `fd`.
    pub fn new_local(&mut self, fd: ExtFrameData) -> (r: usize)
        requires
            fd < old(self).frames().len(),
            old(self).frames()[fd as int].params + old(self).frames()[fd as int].locals < usize::MAX,
        ensures
            r == old(self).frames()[fd as int].params + old(self).frames()[fd as int].locals,
            final(self).frames() == old(self).frames().update(
                fd as int,
                FrameView { locals: old(self).frames()[fd as int].locals + 1, ..old(self).frames()[fd as int] },
            ),
            final(self).tables() == old(self).tables(),
    {
        let r = self.frames[fd].new_local();
        assert(self.frames() =~= old(self).frames().update(
            fd as int,
            FrameView { locals: old(self).frames()[fd as int].locals + 1, ..old(self).frames()[fd as int] },
        ));
        assert(self.tables() =~= old(self).tables());
        r
    }

    /// The data of `tk` at level `sd` or below in table `tbl`, and failing
    /// that at level 0 of the tables that enclose it.
    pub fn get_symbol_data(&self, tbl: ExtSymbolTable, tk: &Symbol, sd: usize) -> (r: Option<SymbolData>)
        ensures
            r == resolve_at(self.tables(), tbl as nat, tk@, sd as nat),
        decreases tbl, sd,
    {
        if tbl >= self.tables.len() {
            return None;
        }
        match self.tables[tbl].find(sd, tk) {
            Some(d) => Some(d),
            None => {
                if sd == 0 {
                    match self.tables[tbl].enclosing {
                        Some(j) => {
                            if j < tbl {
                                self.get_symbol_data(j, tk, 0)
                            } else {
                                None
                            }
                        },
                        None => None,
                    }
                } else {
                    self.get_symbol_data(tbl, tk, sd - 1)
                }
            },
        }
    }

    /// The number of tables that enclose table `tbl`.
    pub fn scope_depth(&self, tbl: ExtSymbolTable) -> (r: usize)
        ensures
            r == nesting(self.tables(), tbl as nat),
    {
        let mut sd: usize = 0;
        let mut cur = tbl;
        while cur < self.tables.len()
            invariant
                nesting(self.tables(), tbl as nat) == sd + nesting(self.tables(), cur as nat),
                sd + cur <= tbl,
            decreases cur,
        {
            match self.tables[cur].enclosing {
                Some(j) => {
                    if j < cur {
                        sd = sd + 1;
                        cur = j;
                    } else {
                        return sd;
                    }
                },
                None => {
                    return sd;
                },
            }
        }
        sd
    }

    /// The table that encloses table `tbl`.
    pub fn enclosing(&self, tbl: ExtSymbolTable) -> (r: Option<ExtSymbolTable>)
        requires
            tbl < self.tables().len(),
        ensures
            r == self.tables()[tbl as int].enclosing,
    {
        self.tables[tbl].enclosing
    }
}

/// What a table gives back of a name just entered: entering `name` with
/// `data` in table `tbl` makes it answer `data` for that name at the table's
/// level, leaves every other key of every table as it was, and so resolving
/// the name there from that level gives `data`.
pub proof fn lemma_insert_then_lookup(
    tables: Seq<TableView>,
    tbl: nat,
    name: Seq<char>,
    data: SymbolData,
    i: nat,
    level: nat,
    other: Seq<char>,
)
    requires
        tbl < tables.len(),
        i < tables.len(),
    ensures
        ({
            let after = tables.update(tbl as int, inserted(tables[tbl as int], name, data));
            &&& after[tbl as int].lookup(tables[tbl as int].depth, name) == Some(data)
            &&& (i != tbl || level != tables[tbl as int].depth || other != name) ==> after[i as int].lookup(
                level,
                other,
            ) == tables[i as int].lookup(level, other)
            &&& resolve_at(after, tbl, name, tables[tbl as int].depth) == Some(data)
        }),
{
    let after = tables.update(tbl as int, inserted(tables[tbl as int], name, data));
    assert(after[tbl as int].entries.drop_last() =~= tables[tbl as int].entries);
}

} // verus!
