//! The single pass over a file's declarations that builds the model.

use vstd::prelude::*;
use crate::classify::{is_enum, is_enum_spec};
use crate::comment::{comment_of, get_comment};
use crate::extract::{
    const_info, extract_constant, extract_function, fn_info, ConstInfo, EnumInfo, FnInfo,
    MskEnum, MskEnumConst, MskFunction,
};
use crate::source::{ImplDecl, ImplMember, SelfType, SourceItem, StructDecl};
use crate::text::str_equal;

verus! {

/// Why a file's declarations cannot be turned into a model.
pub enum BuildError {
    /// An implementation block is for a type that is not one plain identifier.
    UnsupportedSelfType,
    /// An implementation block is for an enum-like type that no earlier
    /// struct declaration introduced; holds the type's name.
    UndeclaredType(String),
}

/// What a `BuildError` says.
pub enum BuildErrorInfo {
    UnsupportedSelfType,
    UndeclaredType(Seq<char>),
}

impl View for BuildError {
    type V = BuildErrorInfo;

    open spec fn view(&self) -> BuildErrorInfo {
        match self {
            BuildError::UnsupportedSelfType => BuildErrorInfo::UnsupportedSelfType,
            BuildError::UndeclaredType(n) => BuildErrorInfo::UndeclaredType(n@),
        }
    }
}

/// What a model says: the enum-like types, at most one per name, and the
/// methods of the other types in declaration order.
pub struct ModelInfo {
    pub enums: Seq<EnumInfo>,
    pub functions: Seq<FnInfo>,
}

/// The extracted model of a source file.
pub struct Model {
    /// Enum-like types, one per name, in order of first declaration.
    pub enums: Vec<MskEnum>,
    /// Methods of the types that are not enum-like, in declaration order.
    pub functions: Vec<MskFunction>,
}

impl View for Model {
    type V = ModelInfo;

    open spec fn view(&self) -> ModelInfo {
        ModelInfo {
            enums: self.enums@.map_values(|e: MskEnum| e@),
            functions: self.functions@.map_values(|f: MskFunction| f@),
        }
    }
}

/// Whether some enum record has the given name.
pub open spec fn has_enum(es: Seq<EnumInfo>, name: Seq<char>) -> bool {
    exists|k: int| 0 <= k < es.len() && (#[trigger] es[k]).name == name
}

/// The position of the enum record with the given name (meaningful when there is one).
pub open spec fn enum_index(es: Seq<EnumInfo>, name: Seq<char>) -> int {
    choose|k: int| 0 <= k < es.len() && (#[trigger] es[k]).name == name
}

/// No two enum records share a name.
pub open spec fn names_unique(es: Seq<EnumInfo>) -> bool {
    forall|i: int, j: int|
        0 <= i < es.len() && 0 <= j < es.len() && i != j ==> (#[trigger] es[i]).name
            != (#[trigger] es[j]).name
}

/// `es` with `e` in place of the record of the same name, or `e` added at the end.
pub open spec fn upsert(es: Seq<EnumInfo>, e: EnumInfo) -> Seq<EnumInfo> {
    if has_enum(es, e.name) {
        es.update(enum_index(es, e.name), e)
    } else {
        es.push(e)
    }
}

/// The constant records of an implementation block's members, in order.
pub open spec fn member_consts(members: Seq<ImplMember>) -> Seq<ConstInfo>
    decreases members.len(),
{
    if members.len() == 0 {
        Seq::empty()
    } else {
        let prev = member_consts(members.drop_last());
        match members.last() {
            ImplMember::Const(c) => prev.push(const_info(c)),
            _ => prev,
        }
    }
}

/// The method records of an implementation block's members for type `owner`, in order.
pub open spec fn member_fns(members: Seq<ImplMember>, owner: Seq<char>) -> Seq<FnInfo>
    decreases members.len(),
{
    if members.len() == 0 {
        Seq::empty()
    } else {
        let prev = member_fns(members.drop_last(), owner);
        match members.last() {
            ImplMember::Fn(f) => prev.push(fn_info(f, owner)),
            _ => prev,
        }
    }
}

/// The model before any declaration.
pub open spec fn empty_info() -> ModelInfo {
    ModelInfo { enums: Seq::empty(), functions: Seq::empty() }
}

/// A struct declaration: an enum-like one (re)starts its type's record.
pub open spec fn step_struct(s: ModelInfo, d: StructDecl) -> ModelInfo {
    if is_enum_spec(d.ident@) {
        ModelInfo {
            enums: upsert(
                s.enums,
                EnumInfo { name: d.ident@, comment: comment_of(d.attrs@), constants: Seq::empty() },
            ),
            functions: s.functions,
        }
    } else {
        s
    }
}

/// An implementation block: a trait implementation changes nothing; one for
/// an enum-like type appends its constants to that type's record, which must
/// exist; one for another type appends its methods.
pub open spec fn step_impl(s: ModelInfo, b: ImplDecl) -> Result<ModelInfo, BuildErrorInfo> {
    if b.has_trait {
        Ok(s)
    } else {
        match b.self_ty {
            SelfType::Unsupported => Err(BuildErrorInfo::UnsupportedSelfType),
            SelfType::Ident(n) => if is_enum_spec(n@) {
                if has_enum(s.enums, n@) {
                    let k = enum_index(s.enums, n@);
                    let e = s.enums[k];
                    Ok(
                        ModelInfo {
                            enums: s.enums.update(
                                k,
                                EnumInfo {
                                    name: e.name,
                                    comment: e.comment,
                                    constants: e.constants + member_consts(b.members@),
                                },
                            ),
                            functions: s.functions,
                        },
                    )
                } else {
                    Err(BuildErrorInfo::UndeclaredType(n@))
                }
            } else {
                Ok(
                    ModelInfo {
                        enums: s.enums,
                        functions: s.functions + member_fns(b.members@, n@),
                    },
                )
            },
        }
    }
}

/// The effect of one top-level declaration.
pub open spec fn step(s: ModelInfo, item: SourceItem) -> Result<ModelInfo, BuildErrorInfo> {
    match item {
        SourceItem::Struct(d) => Ok(step_struct(s, d)),
        SourceItem::Impl(b) => step_impl(s, b),
        SourceItem::Other => Ok(s),
    }
}

/// The declarations taken in order from state `s`; the first error ends the run.
pub open spec fn run_from(s: ModelInfo, items: Seq<SourceItem>) -> Result<
    ModelInfo,
    BuildErrorInfo,
>
    decreases items.len(),
{
    if items.len() == 0 {
        Ok(s)
    } else {
        match run_from(s, items.drop_last()) {
            Ok(t) => step(t, items.last()),
            Err(e) => Err(e),
        }
    }
}

/// The model of a file with the given declarations.
pub open spec fn run(items: Seq<SourceItem>) -> Result<ModelInfo, BuildErrorInfo> {
    run_from(empty_info(), items)
}

/// The constants that the non-trait implementation blocks for the type named
/// `name` contribute, in order.
pub open spec fn consts_for(items: Seq<SourceItem>, name: Seq<char>) -> Seq<ConstInfo>
    decreases items.len(),
{
    if items.len() == 0 {
        Seq::empty()
    } else {
        let prev = consts_for(items.drop_last(), name);
        match items.last() {
            SourceItem::Impl(b) => match b.self_ty {
                SelfType::Ident(n) => if !b.has_trait && n@ == name {
                    prev + member_consts(b.members@)
                } else {
                    prev
                },
                _ => prev,
            },
            _ => prev,
        }
    }
}

/// The methods that the non-trait implementation blocks for types that are
/// not enum-like contribute, in order.
pub open spec fn fns_for(items: Seq<SourceItem>) -> Seq<FnInfo>
    decreases items.len(),
{
    if items.len() == 0 {
        Seq::empty()
    } else {
        let prev = fns_for(items.drop_last());
        match items.last() {
            SourceItem::Impl(b) => match b.self_ty {
                SelfType::Ident(n) => if !b.has_trait && !is_enum_spec(n@) {
                    prev + member_fns(b.members@, n@)
                } else {
                    prev
                },
                _ => prev,
            },
            _ => prev,
        }
    }
}

/// Whether some declaration is a struct named `name`.
pub open spec fn declares_struct(items: Seq<SourceItem>, name: Seq<char>) -> bool {
    exists|k: int|
        0 <= k < items.len() && (#[trigger] items[k]) is Struct && items[k]->Struct_0.ident@ == name
}

proof fn lemma_index_unique(es: Seq<EnumInfo>, k: int, name: Seq<char>)
    requires
        names_unique(es),
        0 <= k < es.len(),
        es[k].name == name,
    ensures
        has_enum(es, name),
        enum_index(es, name) == k,
{
    assert(has_enum(es, name));
    let j = enum_index(es, name);
    if j != k {
        assert(es[j].name != es[k].name);
    }
}

proof fn lemma_upsert(es: Seq<EnumInfo>, e: EnumInfo)
    requires
        names_unique(es),
    ensures
        names_unique(upsert(es, e)),
        forall|k: int|
            0 <= k < es.len() && (#[trigger] es[k]).name != e.name ==> upsert(es, e)[k] == es[k],
{
    let r = upsert(es, e);
    if has_enum(es, e.name) {
        let j = enum_index(es, e.name);
        assert forall|a: int, b: int|
            0 <= a < r.len() && 0 <= b < r.len() && a != b implies (#[trigger] r[a]).name
                != (#[trigger] r[b]).name by {
            assert(es[a].name != es[b].name);
        }
    } else {
        assert forall|a: int, b: int|
            0 <= a < r.len() && 0 <= b < r.len() && a != b implies (#[trigger] r[a]).name
                != (#[trigger] r[b]).name by {
            if a < es.len() && b < es.len() {
                assert(es[a].name != es[b].name);
            } else if a < es.len() {
                assert(es[a].name != e.name);
            } else {
                assert(es[b].name != e.name);
            }
        }
    }
}

proof fn lemma_update_unique(es: Seq<EnumInfo>, k: int, e: EnumInfo)
    requires
        names_unique(es),
        0 <= k < es.len(),
        e.name == es[k].name,
    ensures
        names_unique(es.update(k, e)),
{
    let r = es.update(k, e);
    assert forall|a: int, b: int|
        0 <= a < r.len() && 0 <= b < r.len() && a != b implies (#[trigger] r[a]).name
            != (#[trigger] r[b]).name by {
        assert(es[a].name != es[b].name);
    }
}

/// One step keeps enum names unique and, for an enum-like type that the step
/// does not redeclare, appends to its constants what the step contributes.
proof fn lemma_step_constants(s: ModelInfo, item: SourceItem, name: Seq<char>)
    requires
        names_unique(s.enums),
        has_enum(s.enums, name),
        is_enum_spec(name),
        !(item is Struct && item->Struct_0.ident@ == name),
        step(s, item) is Ok,
    ensures
        names_unique(step(s, item)->Ok_0.enums),
        has_enum(step(s, item)->Ok_0.enums, name),
        step(s, item)->Ok_0.enums[enum_index(step(s, item)->Ok_0.enums, name)].constants
            == s.enums[enum_index(s.enums, name)].constants + consts_for(seq![item], name),
{
    let k = enum_index(s.enums, name);
    let t = step(s, item)->Ok_0;
    assert(seq![item].drop_last() =~= Seq::<SourceItem>::empty());
    assert(seq![item].last() == item);
    assert(consts_for(Seq::<SourceItem>::empty(), name) == Seq::<ConstInfo>::empty());
    match item {
        SourceItem::Struct(d) => {
            if is_enum_spec(d.ident@) {
                let e = EnumInfo { name: d.ident@, comment: comment_of(d.attrs@), constants: Seq::empty() };
                lemma_upsert(s.enums, e);
                assert(t.enums[k] == s.enums[k]);
                lemma_index_unique(t.enums, k, name);
            }
            assert(consts_for(seq![item], name) =~= Seq::<ConstInfo>::empty());
        },
        SourceItem::Impl(b) => {
            if !b.has_trait {
                match b.self_ty {
                    SelfType::Ident(n) => {
                        if is_enum_spec(n@) {
                            let j = enum_index(s.enums, n@);
                            lemma_update_unique(s.enums, j, t.enums[j]);
                            lemma_index_unique(t.enums, k, name);
                            if n@ == name {
                                assert(j == k);
                            } else {
                                assert(j != k);
                                assert(consts_for(seq![item], name) =~= Seq::<ConstInfo>::empty());
                            }
                        } else {
                            assert(n@ != name);
                            assert(consts_for(seq![item], name) =~= Seq::<ConstInfo>::empty());
                        }
                    },
                    SelfType::Unsupported => {},
                }
            } else {
                assert(consts_for(seq![item], name) =~= Seq::<ConstInfo>::empty());
            }
        },
        SourceItem::Other => {
            assert(consts_for(seq![item], name) =~= Seq::<ConstInfo>::empty());
        },
    }
}

proof fn lemma_step_unique(s: ModelInfo, item: SourceItem)
    requires
        names_unique(s.enums),
        step(s, item) is Ok,
    ensures
        names_unique(step(s, item)->Ok_0.enums),
{
    let t = step(s, item)->Ok_0;
    match item {
        SourceItem::Struct(d) => {
            if is_enum_spec(d.ident@) {
                lemma_upsert(
                    s.enums,
                    EnumInfo { name: d.ident@, comment: comment_of(d.attrs@), constants: Seq::empty() },
                );
            }
        },
        SourceItem::Impl(b) => {
            if !b.has_trait {
                match b.self_ty {
                    SelfType::Ident(n) => {
                        if is_enum_spec(n@) {
                            let j = enum_index(s.enums, n@);
                            lemma_update_unique(s.enums, j, t.enums[j]);
                        }
                    },
                    SelfType::Unsupported => {},
                }
            }
        },
        SourceItem::Other => {},
    }
}

proof fn lemma_consts_for_last(items: Seq<SourceItem>, name: Seq<char>)
    requires
        items.len() > 0,
    ensures
        consts_for(items, name) == consts_for(items.drop_last(), name) + consts_for(
            seq![items.last()],
            name,
        ),
{
    let one = seq![items.last()];
    assert(one.drop_last() =~= Seq::<SourceItem>::empty());
    assert(one.last() == items.last());
    assert(consts_for(Seq::<SourceItem>::empty(), name) == Seq::<ConstInfo>::empty());
    let prev = consts_for(items.drop_last(), name);
    assert(prev + Seq::<ConstInfo>::empty() =~= prev);
    assert(consts_for(one, name) == Seq::<ConstInfo>::empty() + consts_for(one, name)) by {
        assert(Seq::<ConstInfo>::empty() + consts_for(one, name) =~= consts_for(one, name));
    }
    match items.last() {
        SourceItem::Impl(b) => match b.self_ty {
            SelfType::Ident(n) => {
                if !b.has_trait && n@ == name {
                    assert(Seq::<ConstInfo>::empty() + member_consts(b.members@) =~= member_consts(
                        b.members@,
                    ));
                }
            },
            _ => {},
        },
        _ => {},
    }
}

/// Running from a state where the enum-like type `name` exists, with no
/// redeclaration of it, appends to its constants those of its blocks in order.
proof fn lemma_constants_from(s: ModelInfo, items: Seq<SourceItem>, name: Seq<char>)
    requires
        names_unique(s.enums),
        has_enum(s.enums, name),
        is_enum_spec(name),
        !declares_struct(items, name),
        run_from(s, items) is Ok,
    ensures
        names_unique(run_from(s, items)->Ok_0.enums),
        has_enum(run_from(s, items)->Ok_0.enums, name),
        run_from(s, items)->Ok_0.enums[enum_index(run_from(s, items)->Ok_0.enums, name)].constants
            == s.enums[enum_index(s.enums, name)].constants + consts_for(items, name),
    decreases items.len(),
{
    if items.len() == 0 {
        assert(s.enums[enum_index(s.enums, name)].constants + Seq::<ConstInfo>::empty()
            =~= s.enums[enum_index(s.enums, name)].constants);
    } else {
        let init = items.drop_last();
        let last = items.last();
        assert(!declares_struct(init, name)) by {
            if declares_struct(init, name) {
                let k = choose|k: int|
                    0 <= k < init.len() && (#[trigger] init[k]) is Struct
                        && init[k]->Struct_0.ident@ == name;
                assert(items[k] == init[k]);
            }
        }
        assert(!(last is Struct && last->Struct_0.ident@ == name)) by {
            assert(items[items.len() - 1] == last);
        }
        lemma_constants_from(s, init, name);
        let t = run_from(s, init)->Ok_0;
        lemma_step_constants(t, last, name);
        lemma_consts_for_last(items, name);
        let c0 = s.enums[enum_index(s.enums, name)].constants;
        assert(c0 + consts_for(init, name) + consts_for(seq![last], name) =~= c0 + (consts_for(
            init,
            name,
        ) + consts_for(seq![last], name)));
    }
}

/// Runs over two sequences of declarations one after the other.
proof fn lemma_run_concat(s: ModelInfo, a: Seq<SourceItem>, b: Seq<SourceItem>)
    ensures
        run_from(s, a + b) == match run_from(s, a) {
            Ok(t) => run_from(t, b),
            Err(e) => Err(e),
        },
    decreases b.len(),
{
    if b.len() == 0 {
        assert(a + b =~= a);
    } else {
        lemma_run_concat(s, a, b.drop_last());
        assert((a + b).drop_last() =~= a + b.drop_last());
        assert((a + b).last() == b.last());
    }
}

/// The constants of an enum-like type are those of the non-trait
/// implementation blocks for it after its (last) declaration, in declaration
/// order, across all such blocks.
pub proof fn lemma_constants_in_order(
    prefix: Seq<SourceItem>,
    d: StructDecl,
    rest: Seq<SourceItem>,
)
    requires
        is_enum_spec(d.ident@),
        !declares_struct(rest, d.ident@),
        run(prefix.push(SourceItem::Struct(d)) + rest) is Ok,
    ensures
        ({
            let es = run(prefix.push(SourceItem::Struct(d)) + rest)->Ok_0.enums;
            &&& names_unique(es)
            &&& has_enum(es, d.ident@)
            &&& es[enum_index(es, d.ident@)].constants == consts_for(rest, d.ident@)
        }),
{
    let name = d.ident@;
    let head = prefix.push(SourceItem::Struct(d));
    lemma_run_concat(empty_info(), head, rest);
    assert(head.drop_last() =~= prefix);
    assert(head.last() == SourceItem::Struct(d));
    lemma_run_unique(empty_info(), prefix);
    let t0 = run(prefix)->Ok_0;
    let e = EnumInfo { name, comment: comment_of(d.attrs@), constants: Seq::empty() };
    lemma_upsert(t0.enums, e);
    let t1 = step_struct(t0, d);
    if has_enum(t0.enums, name) {
        lemma_index_unique(t1.enums, enum_index(t0.enums, name), name);
    } else {
        lemma_index_unique(t1.enums, t0.enums.len() as int, name);
    }
    lemma_constants_from(t1, rest, name);
    assert(Seq::<ConstInfo>::empty() + consts_for(rest, name) =~= consts_for(rest, name));
}

/// Enum names stay unique along any run.
proof fn lemma_run_unique(s: ModelInfo, items: Seq<SourceItem>)
    requires
        names_unique(s.enums),
        run_from(s, items) is Ok,
    ensures
        names_unique(run_from(s, items)->Ok_0.enums),
    decreases items.len(),
{
    if items.len() > 0 {
        lemma_run_unique(s, items.drop_last());
        lemma_step_unique(run_from(s, items.drop_last())->Ok_0, items.last());
    }
}

proof fn lemma_functions_from(s: ModelInfo, items: Seq<SourceItem>)
    requires
        run_from(s, items) is Ok,
    ensures
        run_from(s, items)->Ok_0.functions == s.functions + fns_for(items),
    decreases items.len(),
{
    if items.len() == 0 {
        assert(s.functions + Seq::<FnInfo>::empty() =~= s.functions);
    } else {
        lemma_functions_from(s, items.drop_last());
        let f0 = s.functions;
        let prev = fns_for(items.drop_last());
        match items.last() {
            SourceItem::Impl(b) => match b.self_ty {
                SelfType::Ident(n) => {
                    assert(f0 + prev + member_fns(b.members@, n@) =~= f0 + (prev + member_fns(
                        b.members@,
                        n@,
                    )));
                },
                _ => {},
            },
            _ => {},
        }
    }
}

/// The methods come out in declaration order over the whole file: those of
/// each non-trait implementation block for a type that is not enum-like, block
/// after block, whatever blocks for enum-like types stand between them.
pub proof fn lemma_functions_in_order(items: Seq<SourceItem>)
    requires
        run(items) is Ok,
    ensures
        run(items)->Ok_0.functions == fns_for(items),
{
    lemma_functions_from(empty_info(), items);
    assert(Seq::<FnInfo>::empty() + fns_for(items) =~= fns_for(items));
}

/// Every method record of a block names the block's type as its owner.
pub proof fn lemma_functions_owner(members: Seq<ImplMember>, owner: Seq<char>)
    ensures
        forall|k: int|
            0 <= k < member_fns(members, owner).len() ==> (#[trigger] member_fns(
                members,
                owner,
            )[k]).struct_name == owner,
    decreases members.len(),
{
    if members.len() > 0 {
        lemma_functions_owner(members.drop_last(), owner);
        let prev = member_fns(members.drop_last(), owner);
        let all = member_fns(members, owner);
        assert forall|k: int| 0 <= k < all.len() implies (#[trigger] all[k]).struct_name == owner by {
            if k < prev.len() {
                assert(all[k] == prev[k]);
            }
        }
    }
}

/// An implementation of a trait adds neither constants nor methods, whatever
/// its members.
pub proof fn lemma_trait_impl_inert(s: ModelInfo, b: ImplDecl)
    requires
        b.has_trait,
    ensures
        step(s, SourceItem::Impl(b)) == Ok::<ModelInfo, BuildErrorInfo>(s),
{
}

impl Model {
    /// Enum record names are unique.
    pub open spec fn wf(&self) -> bool {
        names_unique(self@.enums)
    }

    /// A model with no enum-like types and no methods.
    pub fn new() -> (r: Model)
        ensures
            r@ == empty_info(),
            r.wf(),
    {
        let r = Model { enums: Vec::new(), functions: Vec::new() };
        proof {
            assert(r@.enums =~= Seq::<EnumInfo>::empty());
            assert(r@.functions =~= Seq::<FnInfo>::empty());
        }
        r
    }

    /// The position of the enum record named `name`, if any.
    pub fn find_enum(&self, name: &str) -> (r: Option<usize>)
        requires
            self.wf(),
        ensures
            r is None <==> !has_enum(self@.enums, name@),
            r is Some ==> r->0 == enum_index(self@.enums, name@) && r->0 < self.enums@.len(),
    {
        let mut i: usize = 0;
        while i < self.enums.len()
            invariant
                self.wf(),
                0 <= i <= self.enums@.len(),
                forall|k: int| 0 <= k < i ==> (#[trigger] self@.enums[k]).name != name@,
            decreases self.enums@.len() - i,
        {
            if str_equal(self.enums[i].name.as_str(), name) {
                proof {
                    assert(self@.enums[i as int].name == name@);
                    let k = enum_index(self@.enums, name@);
                    assert(self@.enums[k].name == name@);
                    assert(k == i as int) by {
                        if k != i as int {
                            assert(self@.enums[k].name != self@.enums[i as int].name);
                        }
                    }
                }
                return Some(i);
            }
            i = i + 1;
        }
        proof {
            if has_enum(self@.enums, name@) {
                let k = choose|k: int| 0 <= k < self@.enums.len() && (#[trigger] self@.enums[k]).name == name@;
                assert(self@.enums[k].name == name@);
            }
        }
        None
    }
}

/// The constant records of an implementation block's members, in order.
pub fn constants_of(members: &Vec<ImplMember>) -> (r: Vec<MskEnumConst>)
    ensures
        r@.map_values(|c: MskEnumConst| c@) == member_consts(members@),
{
    let mut r: Vec<MskEnumConst> = Vec::new();
    let mut j: usize = 0;
    while j < members.len()
        invariant
            0 <= j <= members@.len(),
            r@.map_values(|c: MskEnumConst| c@) == member_consts(members@.subrange(0, j as int)),
        decreases members@.len() - j,
    {
        proof {
            assert(members@.subrange(0, j + 1).drop_last() =~= members@.subrange(0, j as int));
        }
        match &members[j] {
            ImplMember::Const(c) => {
                let x = extract_constant(c);
                let ghost before = r@;
                r.push(x);
                proof {
                    assert(r@.map_values(|c: MskEnumConst| c@) =~= before.map_values(
                        |c: MskEnumConst| c@,
                    ).push(x@));
                }
            },
            _ => {},
        }
        j = j + 1;
    }
    proof {
        assert(members@.subrange(0, members@.len() as int) =~= members@);
    }
    r
}

/// The method records of an implementation block's members for type `owner`, in order.
pub fn functions_of(members: &Vec<ImplMember>, owner: &str) -> (r: Vec<MskFunction>)
    ensures
        r@.map_values(|f: MskFunction| f@) == member_fns(members@, owner@),
{
    let mut r: Vec<MskFunction> = Vec::new();
    let mut j: usize = 0;
    while j < members.len()
        invariant
            0 <= j <= members@.len(),
            r@.map_values(|f: MskFunction| f@) == member_fns(
                members@.subrange(0, j as int),
                owner@,
            ),
        decreases members@.len() - j,
    {
        proof {
            assert(members@.subrange(0, j + 1).drop_last() =~= members@.subrange(0, j as int));
        }
        match &members[j] {
            ImplMember::Fn(f) => {
                let x = extract_function(f, owner);
                let ghost before = r@;
                r.push(x);
                proof {
                    assert(r@.map_values(|f: MskFunction| f@) =~= before.map_values(
                        |f: MskFunction| f@,
                    ).push(x@));
                }
            },
            _ => {},
        }
        j = j + 1;
    }
    proof {
        assert(members@.subrange(0, members@.len() as int) =~= members@);
    }
    r
}

impl Model {
    /// Takes in a struct declaration: an enum-like one (re)starts its type's record.
    pub fn add_struct(&mut self, d: &StructDecl)
        requires
            old(self).wf(),
        ensures
            final(self).wf(),
            final(self)@ == step_struct(old(self)@, *d),
    {
        if !is_enum(d.ident.as_str()) {
            return;
        }
        let e = MskEnum {
            name: d.ident.clone(),
            comment: get_comment(d.attrs.as_slice()),
            enum_consts: Vec::new(),
        };
        proof {
            assert(e@.constants =~= Seq::<ConstInfo>::empty());
        }
        let ghost pre = self@;
        match self.find_enum(d.ident.as_str()) {
            Some(k) => {
                self.enums.remove(k);
                self.enums.insert(k, e);
                proof {
                    assert(self@.enums =~= pre.enums.update(k as int, e@));
                    assert(self@.functions =~= pre.functions);
                    assert forall|i: int, j: int|
                        0 <= i < self@.enums.len() && 0 <= j < self@.enums.len() && i != j
                        implies (#[trigger] self@.enums[i]).name != (#[trigger] self@.enums[j]).name by {
                        assert(pre.enums[i].name != pre.enums[j].name);
                    }
                }
            },
            None => {
                self.enums.push(e);
                proof {
                    assert(self@.enums =~= pre.enums.push(e@));
                    assert(self@.functions =~= pre.functions);
                    assert forall|i: int, j: int|
                        0 <= i < self@.enums.len() && 0 <= j < self@.enums.len() && i != j
                        implies (#[trigger] self@.enums[i]).name != (#[trigger] self@.enums[j]).name by {
                        if i < pre.enums.len() && j < pre.enums.len() {
                            assert(pre.enums[i].name != pre.enums[j].name);
                        } else if i < pre.enums.len() {
                            assert(pre.enums[i].name != e@.name);
                        } else {
                            assert(pre.enums[j].name != e@.name);
                        }
                    }
                }
            },
        }
    }

    /// Takes in an implementation block; see `step_impl`.
    pub fn add_impl(&mut self, b: &ImplDecl) -> (r: Result<(), BuildError>)
        requires
            old(self).wf(),
        ensures
            final(self).wf(),
            match r {
                Ok(_) => step_impl(old(self)@, *b) == Ok::<ModelInfo, BuildErrorInfo>(
                    final(self)@,
                ),
                Err(e) => step_impl(old(self)@, *b) == Err::<ModelInfo, BuildErrorInfo>(e@),
            },
    {
        if b.has_trait {
            return Ok(());
        }
        let n = match &b.self_ty {
            SelfType::Ident(n) => n,
            SelfType::Unsupported => {
                return Err(BuildError::UnsupportedSelfType);
            },
        };
        let ghost pre = self@;
        if is_enum(n.as_str()) {
            match self.find_enum(n.as_str()) {
                None => Err(BuildError::UndeclaredType(n.clone())),
                Some(k) => {
                    let mut cs = constants_of(&b.members);
                    let mut e = self.enums.remove(k);
                    let ghost old_e = e@;
                    e.enum_consts.append(&mut cs);
                    let ghost new_e = e@;
                    self.enums.insert(k, e);
                    proof {
                        assert(new_e.constants =~= old_e.constants + member_consts(b.members@));
                        assert(self@.enums =~= pre.enums.update(k as int, new_e));
                        assert(self@.functions =~= pre.functions);
                        assert forall|i: int, j: int|
                            0 <= i < self@.enums.len() && 0 <= j < self@.enums.len() && i != j
                            implies (#[trigger] self@.enums[i]).name != (#[trigger] self@.enums[j]).name by {
                            assert(pre.enums[i].name != pre.enums[j].name);
                        }
                    }
                    Ok(())
                },
            }
        } else {
            let mut fs = functions_of(&b.members, n.as_str());
            let ghost old_fs = self.functions@;
            self.functions.append(&mut fs);
            proof {
                assert(self@.functions =~= pre.functions + member_fns(b.members@, n@));
                assert(self@.enums =~= pre.enums);
            }
            Ok(())
        }
    }

    /// Takes in one top-level declaration; see `step`.
    pub fn add_item(&mut self, item: &SourceItem) -> (r: Result<(), BuildError>)
        requires
            old(self).wf(),
        ensures
            final(self).wf(),
            match r {
                Ok(_) => step(old(self)@, *item) == Ok::<ModelInfo, BuildErrorInfo>(final(self)@),
                Err(e) => step(old(self)@, *item) == Err::<ModelInfo, BuildErrorInfo>(e@),
            },
    {
        match item {
            SourceItem::Struct(d) => {
                self.add_struct(d);
                Ok(())
            },
            SourceItem::Impl(b) => self.add_impl(b),
            SourceItem::Other => Ok(()),
        }
    }
}

/// Builds the model of a file from its top-level declarations, in one pass.
/// Fails on the first implementation block for an unsupported type or for an
/// enum-like type not declared before it.
pub fn build_model(items: &[SourceItem]) -> (r: Result<Model, BuildError>)
    ensures
        match r {
            Ok(m) => m.wf() && run(items@) == Ok::<ModelInfo, BuildErrorInfo>(m@),
            Err(e) => run(items@) == Err::<ModelInfo, BuildErrorInfo>(e@),
        },
{
    let mut m = Model::new();
    let mut i: usize = 0;
    while i < items.len()
        invariant
            0 <= i <= items@.len(),
            m.wf(),
            run(items@.subrange(0, i as int)) == Ok::<ModelInfo, BuildErrorInfo>(m@),
        decreases items@.len() - i,
    {
        proof {
            let cur = items@.subrange(0, i + 1);
            assert(cur.drop_last() =~= items@.subrange(0, i as int));
            assert(cur.last() == items@[i as int]);
        }
        match m.add_item(&items[i]) {
            Ok(()) => {},
            Err(e) => {
                proof {
                    lemma_run_stops(items@, i as int);
                }
                return Err(e);
            },
        }
        i = i + 1;
    }
    proof {
        assert(items@.subrange(0, items@.len() as int) =~= items@);
    }
    Ok(m)
}

/// Once a prefix of the declarations fails, the whole run fails the same way.
proof fn lemma_run_stops(items: Seq<SourceItem>, i: int)
    requires
        0 <= i < items.len(),
        run(items.subrange(0, i + 1)) is Err,
    ensures
        run(items) == run(items.subrange(0, i + 1)),
    decreases items.len() - i,
{
    if i + 1 == items.len() {
        assert(items.subrange(0, i + 1) =~= items);
    } else {
        assert(items.drop_last().subrange(0, i + 1) =~= items.subrange(0, i + 1));
        lemma_run_stops(items.drop_last(), i);
    }
}

} // verus!
