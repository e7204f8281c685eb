//! The structural type graph embedded in an artifact: an arena of type
//! nodes addressed by index, and the rendering of one data-section node
//! (with everything it transitively references) as self-contained Rust
//! type definitions whose byte layout mirrors the section exactly.

use vstd::prelude::*;
use vstd::string::*;
use crate::error::{res_str_view, GenError};
use crate::object::spec_canonical_name;
use crate::object::canonicalize_internal_map_name;
use crate::render::{spec_dec, u64_dec};

verus! {

/// One member of a record (struct or union) node.
#[derive(Debug)]
pub struct BtfMember {
    pub name: String,
    pub ty: u32,
}

/// One entry of a data-section node: the byte range `[offset, offset+size)`
/// of the section is occupied by the variable node `ty` references.
#[derive(Clone, Copy, Debug)]
pub struct DatasecEntry {
    pub ty: u32,
    pub offset: u32,
    pub size: u32,
}

/// A node of the type graph. References to other nodes are arena indices,
/// since records may reference themselves through pointer members.
#[derive(Debug)]
pub enum BtfType {
    /// An integer type of `size` bytes.
    Int { size: u32, signed: bool },
    /// A pointer to another node.
    Ptr { ty: u32 },
    /// A fixed-length array of another node.
    Array { elem_ty: u32, nelems: u32 },
    /// A struct with named members in declaration order.
    Struct { name: String, members: Vec<BtfMember> },
    /// A union with named members.
    Union { name: String, members: Vec<BtfMember> },
    /// A named alias of another node.
    Typedef { name: String, ty: u32 },
    /// A const/volatile/restrict wrapper, transparent for layout.
    Qualifier { ty: u32 },
    /// A function signature; never part of a data-section layout.
    Func { name: String },
    /// A named variable of some type.
    Var { name: String, ty: u32 },
    /// A data section: the ordered byte layout of one internal map.
    Datasec { name: String, entries: Vec<DatasecEntry> },
}

/// The materialized type graph of one artifact.
#[derive(Debug)]
pub struct Btf {
    pub types: Vec<BtfType>,
}

/// The Rust primitive for an integer node, by width and signedness.
pub open spec fn spec_int_expr(size: u32, signed: bool) -> Result<Seq<char>, GenError> {
    if size == 1 {
        Ok(if signed { "i8"@ } else { "u8"@ })
    } else if size == 2 {
        Ok(if signed { "i16"@ } else { "u16"@ })
    } else if size == 4 {
        Ok(if signed { "i32"@ } else { "u32"@ })
    } else if size == 8 {
        Ok(if signed { "i64"@ } else { "u64"@ })
    } else {
        Err(GenError::TypeResolutionError)
    }
}

/// The Rust type expression naming the node `idx`: primitives for integers,
/// `*mut` for pointers, array syntax for arrays, and the node's own name
/// for records and aliases. `fuel` bounds chains of aliases and qualifiers;
/// a malformed graph (dangling index, unnamed record, cycle without an
/// intervening record, non-data node in type position) resolves to an error.
pub open spec fn spec_type_expr(types: Seq<BtfType>, idx: int, fuel: nat) -> Result<
    Seq<char>,
    GenError,
>
    decreases fuel,
{
    if fuel == 0 || idx < 0 || idx >= types.len() {
        Err(GenError::TypeResolutionError)
    } else {
        match types[idx] {
            BtfType::Int { size, signed } => spec_int_expr(size, signed),
            BtfType::Ptr { ty } => match spec_type_expr(types, ty as int, (fuel - 1) as nat) {
                Ok(t) => Ok("*mut "@ + t),
                Err(e) => Err(e),
            },
            BtfType::Array { elem_ty, nelems } => match spec_type_expr(
                types,
                elem_ty as int,
                (fuel - 1) as nat,
            ) {
                Ok(t) => Ok("["@ + t + "; "@ + spec_dec(nelems as int) + "]"@),
                Err(e) => Err(e),
            },
            BtfType::Struct { name, .. } => if name@.len() > 0 {
                Ok(name@)
            } else {
                Err(GenError::TypeResolutionError)
            },
            BtfType::Union { name, .. } => if name@.len() > 0 {
                Ok(name@)
            } else {
                Err(GenError::TypeResolutionError)
            },
            BtfType::Typedef { name, .. } => if name@.len() > 0 {
                Ok(name@)
            } else {
                Err(GenError::TypeResolutionError)
            },
            BtfType::Qualifier { ty } => spec_type_expr(types, ty as int, (fuel - 1) as nat),
            _ => Err(GenError::TypeResolutionError),
        }
    }
}

/// Renders the type expression for node `idx`.
pub fn type_expr(types: &Vec<BtfType>, idx: u32, fuel: usize) -> (r: Result<String, GenError>)
    ensures
        res_str_view(r) == spec_type_expr(types@, idx as int, fuel as nat),
    decreases fuel,
{
    if fuel == 0 || idx as usize >= types.len() {
        return Err(GenError::TypeResolutionError);
    }
    match &types[idx as usize] {
        BtfType::Int { size, signed } => {
            let size = *size;
            let signed = *signed;
            if size == 1 {
                Ok((if signed { "i8" } else { "u8" }).to_owned())
            } else if size == 2 {
                Ok((if signed { "i16" } else { "u16" }).to_owned())
            } else if size == 4 {
                Ok((if signed { "i32" } else { "u32" }).to_owned())
            } else if size == 8 {
                Ok((if signed { "i64" } else { "u64" }).to_owned())
            } else {
                Err(GenError::TypeResolutionError)
            }
        },
        BtfType::Ptr { ty } => {
            let ty = *ty;
            match type_expr(types, ty, fuel - 1) {
                Ok(t) => {
                    let mut s = "*mut ".to_owned();
                    s.append(t.as_str());
                    Ok(s)
                },
                Err(e) => Err(e),
            }
        },
        BtfType::Array { elem_ty, nelems } => {
            let elem_ty = *elem_ty;
            let nelems = *nelems;
            match type_expr(types, elem_ty, fuel - 1) {
                Ok(t) => {
                    let mut s = "[".to_owned();
                    s.append(t.as_str());
                    s.append("; ");
                    let n = u64_dec(nelems as u64);
                    s.append(n.as_str());
                    s.append("]");
                    assert(s@ =~= "["@ + t@ + "; "@ + spec_dec(nelems as int) + "]"@);
                    Ok(s)
                },
                Err(e) => Err(e),
            }
        },
        BtfType::Struct { name, .. } => {
            if name.as_str().is_empty() {
                Err(GenError::TypeResolutionError)
            } else {
                Ok(name.clone())
            }
        },
        BtfType::Union { name, .. } => {
            if name.as_str().is_empty() {
                Err(GenError::TypeResolutionError)
            } else {
                Ok(name.clone())
            }
        },
        BtfType::Typedef { name, .. } => {
            if name.as_str().is_empty() {
                Err(GenError::TypeResolutionError)
            } else {
                Ok(name.clone())
            }
        },
        BtfType::Qualifier { ty } => {
            let ty = *ty;
            type_expr(types, ty, fuel - 1)
        },
        _ => Err(GenError::TypeResolutionError),
    }
}

/// `needed` with index `ty` marked, when `ty` is a valid index.
pub open spec fn spec_mark(needed: Seq<bool>, ty: int) -> Seq<bool> {
    if 0 <= ty < needed.len() {
        needed.update(ty, true)
    } else {
        needed
    }
}

/// Marks every type a member list references.
pub open spec fn spec_mark_members(needed: Seq<bool>, members: Seq<BtfMember>) -> Seq<bool>
    decreases members.len(),
{
    if members.len() == 0 {
        needed
    } else {
        spec_mark((spec_mark_members(needed, members.drop_last())), members.last().ty as int)
    }
}

/// Marks everything the node `i` directly references, when `i` itself is
/// marked.
pub open spec fn spec_mark_one(types: Seq<BtfType>, needed: Seq<bool>, i: int) -> Seq<bool> {
    if !(0 <= i < needed.len()) || !needed[i] || i >= types.len() {
        needed
    } else {
        match types[i] {
            BtfType::Ptr { ty } => spec_mark(needed, ty as int),
            BtfType::Array { elem_ty, .. } => spec_mark(needed, elem_ty as int),
            BtfType::Struct { members, .. } => spec_mark_members(needed, members@),
            BtfType::Union { members, .. } => spec_mark_members(needed, members@),
            BtfType::Typedef { ty, .. } => spec_mark(needed, ty as int),
            BtfType::Qualifier { ty } => spec_mark(needed, ty as int),
            BtfType::Var { ty, .. } => spec_mark(needed, ty as int),
            _ => needed,
        }
    }
}

/// One pass over the arena, marking the references of every marked node in
/// index order (marks made early in a pass are seen later in the same one).
pub open spec fn spec_mark_pass(types: Seq<BtfType>, needed: Seq<bool>, i: int) -> Seq<bool>
    decreases types.len() - i,
{
    if i < 0 || i >= types.len() {
        needed
    } else {
        spec_mark_pass(types, spec_mark_one(types, needed, i), i + 1)
    }
}

/// `rounds` passes over the arena; as many passes as the arena has nodes
/// reach every node the marked ones transitively reference.
pub open spec fn spec_mark_rounds(types: Seq<BtfType>, needed: Seq<bool>, rounds: nat) -> Seq<bool>
    decreases rounds,
{
    if rounds == 0 {
        needed
    } else {
        spec_mark_rounds(types, spec_mark_pass(types, needed, 0), (rounds - 1) as nat)
    }
}

fn mark(needed: &mut Vec<bool>, ty: u32)
    ensures
        final(needed)@ == spec_mark(old(needed)@, ty as int),
{
    if (ty as usize) < needed.len() {
        needed.set(ty as usize, true);
    }
}

fn mark_members(needed: &mut Vec<bool>, members: &Vec<BtfMember>)
    ensures
        final(needed)@ == spec_mark_members(old(needed)@, members@),
{
    let mut j: usize = 0;
    while j < members.len()
        invariant
            0 <= j <= members@.len(),
            needed@ == spec_mark_members(old(needed)@, members@.take(j as int)),
        decreases members@.len() - j,
    {
        mark(needed, members[j].ty);
        proof {
            let t = members@.take(j + 1);
            assert(t.drop_last() =~= members@.take(j as int));
            assert(t.last() == members@[j as int]);
        }
        j = j + 1;
    }
    assert(members@.take(members@.len() as int) =~= members@);
}

fn mark_one(types: &Vec<BtfType>, needed: &mut Vec<bool>, i: usize)
    requires
        i < types@.len(),
    ensures
        final(needed)@ == spec_mark_one(types@, old(needed)@, i as int),
{
    if i >= needed.len() || !needed[i] {
        return;
    }
    match &types[i] {
        BtfType::Ptr { ty } => mark(needed, *ty),
        BtfType::Array { elem_ty, .. } => mark(needed, *elem_ty),
        BtfType::Struct { members, .. } => mark_members(needed, members),
        BtfType::Union { members, .. } => mark_members(needed, members),
        BtfType::Typedef { ty, .. } => mark(needed, *ty),
        BtfType::Qualifier { ty } => mark(needed, *ty),
        BtfType::Var { ty, .. } => mark(needed, *ty),
        _ => (),
    }
}

/// Computes which nodes the seeded ones transitively reference.
fn mark_transitive(types: &Vec<BtfType>, needed: &mut Vec<bool>)
    ensures
        final(needed)@ == spec_mark_rounds(types@, old(needed)@, types@.len()),
{
    let rounds = types.len();
    let mut r: usize = 0;
    while r < rounds
        invariant
            0 <= r <= rounds,
            rounds == types@.len(),
            spec_mark_rounds(types@, old(needed)@, types@.len()) == spec_mark_rounds(
                types@,
                needed@,
                (rounds - r) as nat,
            ),
        decreases rounds - r,
    {
        let mut i: usize = 0;
        let ghost entry = needed@;
        while i < types.len()
            invariant
                0 <= i <= types@.len(),
                needed@ == spec_mark_pass_upto(types@, entry, i as int),
            decreases types@.len() - i,
        {
            mark_one(types, needed, i);
            i = i + 1;
        }
        proof {
            lemma_mark_pass_upto_full(types@, entry);
        }
        r = r + 1;
    }
}

/// The state after the passes over indices `0..i` of one marking pass.
pub open spec fn spec_mark_pass_upto(types: Seq<BtfType>, needed: Seq<bool>, i: int) -> Seq<bool>
    decreases i,
{
    if i <= 0 {
        needed
    } else {
        spec_mark_one(types, spec_mark_pass_upto(types, needed, i - 1), i - 1)
    }
}

proof fn lemma_mark_pass_from(types: Seq<BtfType>, needed: Seq<bool>, i: int)
    requires
        0 <= i <= types.len(),
    ensures
        spec_mark_pass(types, spec_mark_pass_upto(types, needed, i), i) == spec_mark_pass(
            types,
            needed,
            0,
        ),
    decreases i,
{
    if i > 0 {
        lemma_mark_pass_from(types, needed, i - 1);
    }
}

proof fn lemma_mark_pass_upto_full(types: Seq<BtfType>, needed: Seq<bool>)
    ensures
        spec_mark_pass_upto(types, needed, types.len() as int) == spec_mark_pass(types, needed, 0),
{
    lemma_mark_pass_from(types, needed, types.len() as int);
}

/// The definition of one record member as a field line.
pub open spec fn spec_member_field(types: Seq<BtfType>, m: BtfMember) -> Result<
    Seq<char>,
    GenError,
> {
    if m.name@.len() == 0 {
        Err(GenError::TypeResolutionError)
    } else {
        match spec_type_expr(types, m.ty as int, types.len()) {
            Ok(t) => Ok("    pub "@ + m.name@ + ": "@ + t + ",\n"@),
            Err(e) => Err(e),
        }
    }
}

/// The field lines of a record, in member order.
pub open spec fn spec_members_text(types: Seq<BtfType>, members: Seq<BtfMember>) -> Result<
    Seq<char>,
    GenError,
>
    decreases members.len(),
{
    if members.len() == 0 {
        Ok(Seq::empty())
    } else {
        match spec_member_field(types, members[0]) {
            Err(e) => Err(e),
            Ok(t) => match spec_members_text(types, members.skip(1)) {
                Err(e) => Err(e),
                Ok(rest) => Ok(t + rest),
            },
        }
    }
}

/// The attribute-and-keyword header of a generated record definition.
pub open spec fn spec_record_header(is_union: bool) -> Seq<char> {
    if is_union {
        "#[derive(Copy, Clone)]\n#[repr(C)]\npub union "@
    } else {
        "#[derive(Debug, Copy, Clone)]\n#[repr(C)]\npub struct "@
    }
}

/// The full definition of one record node.
pub open spec fn spec_record_def(
    types: Seq<BtfType>,
    is_union: bool,
    name: Seq<char>,
    members: Seq<BtfMember>,
) -> Result<Seq<char>, GenError> {
    if name.len() == 0 {
        Err(GenError::TypeResolutionError)
    } else {
        match spec_members_text(types, members) {
            Err(e) => Err(e),
            Ok(mt) => Ok(spec_record_header(is_union) + name + " {\n"@ + mt + "}\n"@),
        }
    }
}

/// The definition of one named alias node.
pub open spec fn spec_typedef_def(types: Seq<BtfType>, name: Seq<char>, ty: int) -> Result<
    Seq<char>,
    GenError,
> {
    if name.len() == 0 {
        Err(GenError::TypeResolutionError)
    } else {
        match spec_type_expr(types, ty, types.len()) {
            Ok(t) => Ok("pub type "@ + name + " = "@ + t + ";\n"@),
            Err(e) => Err(e),
        }
    }
}

/// The definition text node `i` contributes: record and alias nodes that
/// are marked as referenced produce their definitions, everything else
/// produces nothing.
pub open spec fn spec_def_one(types: Seq<BtfType>, needed: Seq<bool>, i: int) -> Result<
    Seq<char>,
    GenError,
> {
    if !(0 <= i < types.len()) || i >= needed.len() || !needed[i] {
        Ok(Seq::empty())
    } else {
        match types[i] {
            BtfType::Struct { name, members } => spec_record_def(types, false, name@, members@),
            BtfType::Union { name, members } => spec_record_def(types, true, name@, members@),
            BtfType::Typedef { name, ty } => spec_typedef_def(types, name@, ty as int),
            _ => Ok(Seq::empty()),
        }
    }
}

/// The definitions of all marked record and alias nodes from index `i` on,
/// in arena order.
pub open spec fn spec_defs_from(types: Seq<BtfType>, needed: Seq<bool>, i: int) -> Result<
    Seq<char>,
    GenError,
>
    decreases types.len() - i,
{
    if i < 0 || i >= types.len() {
        Ok(Seq::empty())
    } else {
        match spec_def_one(types, needed, i) {
            Err(e) => Err(e),
            Ok(t) => match spec_defs_from(types, needed, i + 1) {
                Err(e) => Err(e),
                Ok(rest) => Ok(t + rest),
            },
        }
    }
}

/// A padding field covering a gap of `n` bytes before the next entry.
pub open spec fn spec_pad_field(padidx: int, n: int) -> Seq<char> {
    "    pub __pad_"@ + spec_dec(padidx) + ": [u8; "@ + spec_dec(n) + "],\n"@
}

/// The field lines of a data-section record: one field per entry, in entry
/// order, with a padding field wherever the entries leave a byte gap.
/// Overlapping entries, entries out of order, and entries that do not
/// reference a named variable are malformed.
pub open spec fn spec_datasec_fields(
    types: Seq<BtfType>,
    entries: Seq<DatasecEntry>,
    expected: int,
    padidx: int,
) -> Result<Seq<char>, GenError>
    decreases entries.len(),
{
    if entries.len() == 0 {
        Ok(Seq::empty())
    } else {
        let e = entries[0];
        if (e.offset as int) < expected {
            Err(GenError::TypeResolutionError)
        } else {
            let pad = if (e.offset as int) > expected {
                spec_pad_field(padidx, e.offset - expected)
            } else {
                Seq::empty()
            };
            let pi = if (e.offset as int) > expected {
                padidx + 1
            } else {
                padidx
            };
            if (e.ty as int) >= types.len() {
                Err(GenError::TypeResolutionError)
            } else {
                match types[e.ty as int] {
                    BtfType::Var { name, ty } => {
                        if name@.len() == 0 {
                            Err(GenError::TypeResolutionError)
                        } else {
                            match spec_type_expr(types, ty as int, types.len()) {
                                Err(e2) => Err(e2),
                                Ok(t) => match spec_datasec_fields(
                                    types,
                                    entries.skip(1),
                                    e.offset + e.size,
                                    pi,
                                ) {
                                    Err(e3) => Err(e3),
                                    Ok(rest) => Ok(
                                        pad + "    pub "@ + name@ + ": "@ + t + ",\n"@ + rest,
                                    ),
                                },
                            }
                        }
                    },
                    _ => Err(GenError::TypeResolutionError),
                }
            }
        }
    }
}

/// A freshly seeded marking: the entries' variable nodes are marked.
pub open spec fn spec_seed(needed: Seq<bool>, entries: Seq<DatasecEntry>) -> Seq<bool>
    decreases entries.len(),
{
    if entries.len() == 0 {
        needed
    } else {
        spec_mark(spec_seed(needed, entries.drop_last()), entries.last().ty as int)
    }
}

/// The rendering of the data-section node `idx` as one record type named
/// after the section's canonical name, followed by the definitions of every
/// record and alias node the section transitively references.
pub open spec fn spec_type_definition(types: Seq<BtfType>, idx: int) -> Result<
    Seq<char>,
    GenError,
> {
    if !(0 <= idx < types.len()) {
        Err(GenError::TypeResolutionError)
    } else {
        match types[idx] {
            BtfType::Datasec { name, entries } => match spec_canonical_name(name@) {
                None => Err(GenError::TypeResolutionError),
                Some(c) => match spec_datasec_fields(types, entries@, 0, 0) {
                    Err(e) => Err(e),
                    Ok(ft) => {
                        let needed = spec_mark_rounds(
                            types,
                            spec_seed(Seq::new(types.len(), |k: int| false), entries@),
                            types.len(),
                        );
                        match spec_defs_from(types, needed, 0) {
                            Err(e) => Err(e),
                            Ok(dt) => Ok(
                                spec_record_header(false) + c + " {\n"@ + ft + "}\n"@ + dt,
                            ),
                        }
                    },
                },
            },
            _ => Err(GenError::TypeResolutionError),
        }
    }
}

fn member_field(types: &Vec<BtfType>, m: &BtfMember) -> (r: Result<String, GenError>)
    ensures
        res_str_view(r) == spec_member_field(types@, *m),
{
    if m.name.as_str().is_empty() {
        return Err(GenError::TypeResolutionError);
    }
    match type_expr(types, m.ty, types.len()) {
        Err(e) => Err(e),
        Ok(t) => {
            let mut s = "    pub ".to_owned();
            s.append(m.name.as_str());
            s.append(": ");
            s.append(t.as_str());
            s.append(",\n");
            assert(s@ =~= "    pub "@ + m.name@ + ": "@ + t@ + ",\n"@);
            Ok(s)
        },
    }
}

fn members_text(types: &Vec<BtfType>, members: &Vec<BtfMember>) -> (r: Result<String, GenError>)
    ensures
        res_str_view(r) == spec_members_text(types@, members@),
{
    let mut acc = String::new();
    let mut j: usize = 0;
    assert(members@.skip(0) =~= members@);
    while j < members.len()
        invariant
            0 <= j <= members@.len(),
            spec_members_text(types@, members@) == (match spec_members_text(
                types@,
                members@.skip(j as int),
            ) {
                Ok(t) => Ok::<Seq<char>, GenError>(acc@ + t),
                Err(e) => Err(e),
            }),
        decreases members@.len() - j,
    {
        proof {
            let rest = members@.skip(j as int);
            assert(rest[0] == members@[j as int]);
            assert(rest.skip(1) =~= members@.skip(j + 1));
        }
        let ghost prev = acc@;
        match member_field(types, &members[j]) {
            Err(e) => {
                return Err(e);
            },
            Ok(t) => {
                acc.append(t.as_str());
                proof {
                    match spec_members_text(types@, members@.skip(j + 1)) {
                        Ok(r2) => {
                            assert(prev + (t@ + r2) =~= acc@ + r2);
                        },
                        Err(_) => {},
                    }
                }
            },
        }
        j = j + 1;
    }
    assert(members@.skip(members@.len() as int) =~= Seq::<BtfMember>::empty());
    assert(acc@ + Seq::<char>::empty() =~= acc@);
    Ok(acc)
}

fn record_def(
    types: &Vec<BtfType>,
    is_union: bool,
    name: &String,
    members: &Vec<BtfMember>,
) -> (r: Result<String, GenError>)
    ensures
        res_str_view(r) == spec_record_def(types@, is_union, name@, members@),
{
    if name.as_str().is_empty() {
        return Err(GenError::TypeResolutionError);
    }
    match members_text(types, members) {
        Err(e) => Err(e),
        Ok(mt) => {
            let mut s = if is_union {
                "#[derive(Copy, Clone)]\n#[repr(C)]\npub union ".to_owned()
            } else {
                "#[derive(Debug, Copy, Clone)]\n#[repr(C)]\npub struct ".to_owned()
            };
            s.append(name.as_str());
            s.append(" {\n");
            s.append(mt.as_str());
            s.append("}\n");
            assert(s@ =~= spec_record_header(is_union) + name@ + " {\n"@ + mt@ + "}\n"@);
            Ok(s)
        },
    }
}

fn typedef_def(types: &Vec<BtfType>, name: &String, ty: u32) -> (r: Result<String, GenError>)
    ensures
        res_str_view(r) == spec_typedef_def(types@, name@, ty as int),
{
    if name.as_str().is_empty() {
        return Err(GenError::TypeResolutionError);
    }
    match type_expr(types, ty, types.len()) {
        Err(e) => Err(e),
        Ok(t) => {
            let mut s = "pub type ".to_owned();
            s.append(name.as_str());
            s.append(" = ");
            s.append(t.as_str());
            s.append(";\n");
            assert(s@ =~= "pub type "@ + name@ + " = "@ + t@ + ";\n"@);
            Ok(s)
        },
    }
}

fn def_one(types: &Vec<BtfType>, needed: &Vec<bool>, i: usize) -> (r: Result<String, GenError>)
    requires
        i < types@.len(),
    ensures
        res_str_view(r) == spec_def_one(types@, needed@, i as int),
{
    if i >= needed.len() || !needed[i] {
        return Ok(String::new());
    }
    match &types[i] {
        BtfType::Struct { name, members } => record_def(types, false, name, members),
        BtfType::Union { name, members } => record_def(types, true, name, members),
        BtfType::Typedef { name, ty } => typedef_def(types, name, *ty),
        _ => Ok(String::new()),
    }
}

fn defs_text(types: &Vec<BtfType>, needed: &Vec<bool>) -> (r: Result<String, GenError>)
    ensures
        res_str_view(r) == spec_defs_from(types@, needed@, 0),
{
    let mut acc = String::new();
    let mut i: usize = 0;
    while i < types.len()
        invariant
            0 <= i <= types@.len(),
            spec_defs_from(types@, needed@, 0) == (match spec_defs_from(
                types@,
                needed@,
                i as int,
            ) {
                Ok(t) => Ok::<Seq<char>, GenError>(acc@ + t),
                Err(e) => Err(e),
            }),
        decreases types@.len() - i,
    {
        let ghost prev = acc@;
        match def_one(types, needed, i) {
            Err(e) => {
                return Err(e);
            },
            Ok(t) => {
                acc.append(t.as_str());
                proof {
                    match spec_defs_from(types@, needed@, i + 1) {
                        Ok(r2) => {
                            assert(prev + (t@ + r2) =~= acc@ + r2);
                        },
                        Err(_) => {},
                    }
                }
            },
        }
        i = i + 1;
    }
    assert(acc@ + Seq::<char>::empty() =~= acc@);
    Ok(acc)
}

fn datasec_fields(types: &Vec<BtfType>, entries: &Vec<DatasecEntry>) -> (r: Result<
    String,
    GenError,
>)
    ensures
        res_str_view(r) == spec_datasec_fields(types@, entries@, 0, 0),
{
    let mut acc = String::new();
    let mut expected: u64 = 0;
    let mut padidx: u64 = 0;
    let mut i: usize = 0;
    assert(entries@.skip(0) =~= entries@);
    while i < entries.len()
        invariant
            0 <= i <= entries@.len(),
            padidx <= i,
            expected < 0x2_0000_0000,
            spec_datasec_fields(types@, entries@, 0, 0) == (match spec_datasec_fields(
                types@,
                entries@.skip(i as int),
                expected as int,
                padidx as int,
            ) {
                Ok(t) => Ok::<Seq<char>, GenError>(acc@ + t),
                Err(e) => Err(e),
            }),
        decreases entries@.len() - i,
    {
        proof {
            let rest = entries@.skip(i as int);
            assert(rest[0] == entries@[i as int]);
            assert(rest.skip(1) =~= entries@.skip(i + 1));
        }
        let e = entries[i];
        if (e.offset as u64) < expected {
            return Err(GenError::TypeResolutionError);
        }
        let ghost prev = acc@;
        let ghost pad_view = if (e.offset as int) > expected as int {
            spec_pad_field(padidx as int, e.offset - expected as int)
        } else {
            Seq::<char>::empty()
        };
        let padded = (e.offset as u64) > expected;
        if padded {
            acc.append("    pub __pad_");
            let d = u64_dec(padidx);
            acc.append(d.as_str());
            acc.append(": [u8; ");
            let g = u64_dec(e.offset as u64 - expected);
            acc.append(g.as_str());
            acc.append("],\n");
            assert(acc@ =~= prev + pad_view);
        }
        if e.ty as usize >= types.len() {
            return Err(GenError::TypeResolutionError);
        }
        match &types[e.ty as usize] {
            BtfType::Var { name, ty } => {
                if name.as_str().is_empty() {
                    return Err(GenError::TypeResolutionError);
                }
                let t = match type_expr(types, *ty, types.len()) {
                    Ok(t) => t,
                    Err(er) => {
                        return Err(er);
                    },
                };
                acc.append("    pub ");
                acc.append(name.as_str());
                acc.append(": ");
                acc.append(t.as_str());
                acc.append(",\n");
                let ghost piece = pad_view + "    pub "@ + name@ + ": "@ + t@ + ",\n"@;
                assert(acc@ =~= prev + piece);
                proof {
                    let new_pi: int = if (e.offset as int) > expected as int {
                        padidx as int + 1
                    } else {
                        padidx as int
                    };
                    match spec_datasec_fields(
                        types@,
                        entries@.skip(i + 1),
                        e.offset + e.size,
                        new_pi,
                    ) {
                        Ok(r2) => {
                            assert(prev + (piece + r2) =~= acc@ + r2);
                        },
                        Err(_) => {},
                    }
                }
                if padded {
                    padidx = padidx + 1;
                }
                expected = (e.offset as u64) + (e.size as u64);
            },
            _ => {
                return Err(GenError::TypeResolutionError);
            },
        }
        i = i + 1;
    }
    assert(entries@.skip(entries@.len() as int) =~= Seq::<DatasecEntry>::empty());
    assert(acc@ + Seq::<char>::empty() =~= acc@);
    Ok(acc)
}

impl Btf {
    /// The nodes of the type graph, in arena order.
    pub fn types(&self) -> (r: &Vec<BtfType>)
        ensures
            r == &self.types,
    {
        &self.types
    }

    /// Renders the data-section node `idx` (and everything it transitively
    /// references) as self-contained Rust type definitions.
    pub fn type_definition(&self, idx: usize) -> (r: Result<String, GenError>)
        ensures
            res_str_view(r) == spec_type_definition(self.types@, idx as int),
    {
        if idx >= self.types.len() {
            return Err(GenError::TypeResolutionError);
        }
        match &self.types[idx] {
            BtfType::Datasec { name, entries } => {
                let canon = match canonicalize_internal_map_name(name.as_str()) {
                    Some(c) => c,
                    None => {
                        return Err(GenError::TypeResolutionError);
                    },
                };
                let ft = match datasec_fields(&self.types, entries) {
                    Ok(t) => t,
                    Err(e) => {
                        return Err(e);
                    },
                };
                let mut needed: Vec<bool> = Vec::new();
                let n = self.types.len();
                while needed.len() < n
                    invariant
                        needed@ =~= Seq::new(needed@.len(), |k: int| false),
                        needed@.len() <= n,
                    decreases n - needed@.len(),
                {
                    needed.push(false);
                }
                assert(needed@ =~= Seq::new(self.types@.len(), |k: int| false));
                let mut j: usize = 0;
                let ghost fresh = needed@;
                while j < entries.len()
                    invariant
                        0 <= j <= entries@.len(),
                        needed@ == spec_seed(fresh, entries@.take(j as int)),
                    decreases entries@.len() - j,
                {
                    mark(&mut needed, entries[j].ty);
                    proof {
                        let t = entries@.take(j + 1);
                        assert(t.drop_last() =~= entries@.take(j as int));
                        assert(t.last() == entries@[j as int]);
                    }
                    j = j + 1;
                }
                assert(entries@.take(entries@.len() as int) =~= entries@);
                mark_transitive(&self.types, &mut needed);
                let dt = match defs_text(&self.types, &needed) {
                    Ok(t) => t,
                    Err(e) => {
                        return Err(e);
                    },
                };
                let mut s = "#[derive(Debug, Copy, Clone)]\n#[repr(C)]\npub struct ".to_owned();
                s.append(canon.as_str());
                s.append(" {\n");
                s.append(ft.as_str());
                s.append("}\n");
                s.append(dt.as_str());
                assert(s@ =~= spec_record_header(false) + canon@ + " {\n"@ + ft@ + "}\n"@ + dt@);
                Ok(s)
            },
            _ => Err(GenError::TypeResolutionError),
        }
    }
}

} // verus!
