//! Work items: the name a new item takes, the partial update of an item and
//! the bulk generator that puts one item of a type in every leaf section
//! below a section, skipping leaves that already hold one.

use vstd::prelude::*;
use crate::entities::{Priority, WorkItemStatus};
use crate::errors::{DomainError, validation, is_validation_err};
use crate::duration::Moment;
use crate::sections::Section;
use crate::render::decimal;
use crate::text::{owned, trim, trimmed, is_blank, join2, str_eq};
use crate::entities::PropertyDataType;

verus! {

/// A work item: one piece of work in a section.
#[derive(Debug)]
pub struct WorkItem {
    pub id: u128,
    pub workspace_id: u128,
    pub project_id: u128,
    pub section_id: u128,
    pub work_item_type_id: u128,
    pub name: String,
    pub code: Option<String>,
    pub status: WorkItemStatus,
    pub priority: Priority,
    pub planned_start_at: Option<Moment>,
    pub planned_end_at: Option<Moment>,
    pub created_at: Moment,
    pub updated_at: Moment,
    pub deleted_at: Option<Moment>,
}

/// A work item to insert.
#[derive(Debug)]
pub struct NewWorkItem {
    pub project_id: u128,
    pub workspace_id: u128,
    pub section_id: u128,
    pub work_item_type_id: u128,
    pub name: String,
    pub code: Option<String>,
    pub priority: Priority,
}

/// A new single work item.
#[derive(Debug)]
pub struct CreateWorkItemRequest {
    pub section_id: u128,
    pub work_item_type_id: u128,
    pub name: Option<String>,
    pub priority: Option<Priority>,
}

/// The name of a new item: the given name, trimmed, unless blank or
/// absent; then the name of its type.
pub open spec fn spec_item_name(given: Option<Seq<char>>, kind_name: Seq<char>) -> Seq<char> {
    match given {
        Some(n) => if trimmed(n).len() > 0 {
            trimmed(n)
        } else {
            kind_name
        },
        None => kind_name,
    }
}

impl CreateWorkItemRequest {
    /// The row for this request in `section` (which gives the project) with
    /// a type named `kind_name`; priority NORMAL unless given.
    pub fn new_row(&self, section: &Section, workspace_id: u128, kind_name: &str) -> (r: NewWorkItem)
        ensures
            r.project_id == section.project_id,
            r.workspace_id == workspace_id,
            r.section_id == section.id,
            r.work_item_type_id == self.work_item_type_id,
            r.name@ == spec_item_name(
                match self.name {
                    Some(n) => Some(n@),
                    None => None,
                },
                kind_name@,
            ),
            r.code is None,
            r.priority == match self.priority {
                Some(p) => p,
                None => Priority::Normal,
            },
    {
        let name = match &self.name {
            Some(n) => {
                let t = trim(n.as_str());
                if is_blank(t.as_str()) {
                    owned(kind_name)
                } else {
                    t
                }
            },
            None => owned(kind_name),
        };
        NewWorkItem {
            project_id: section.project_id,
            workspace_id,
            section_id: section.id,
            work_item_type_id: self.work_item_type_id,
            name,
            code: None,
            priority: match self.priority {
                Some(p) => p,
                None => Priority::Normal,
            },
        }
    }
}

/// A partial update of a work item.
#[derive(Debug)]
pub struct UpdateWorkItemRequest {
    pub name: Option<String>,
    pub priority: Option<Priority>,
    pub planned_start_at: Option<Moment>,
    pub planned_end_at: Option<Moment>,
}

fn copy_text(o: &Option<String>) -> (r: Option<String>)
    ensures
        crate::section_plan::opt_text(r) == crate::section_plan::opt_text(*o),
{
    match o {
        Some(t) => Some(t.clone()),
        None => None,
    }
}

impl UpdateWorkItemRequest {
    /// The item after the update, stamped `now`; a given name must not be
    /// blank. Planned dates are set when given and otherwise kept.
    pub fn apply(&self, existing: &WorkItem, now: Moment) -> (r: Result<WorkItem, DomainError>)
        ensures
            (self.name matches Some(n) && trimmed(n@).len() == 0) ==> is_validation_err(
                r,
                "İş kalemi adı boş olamaz."@,
            ),
            !(self.name matches Some(n) && trimmed(n@).len() == 0) ==> (r matches Ok(w) && {
                &&& w.id == existing.id
                &&& w.workspace_id == existing.workspace_id
                &&& w.project_id == existing.project_id
                &&& w.section_id == existing.section_id
                &&& w.work_item_type_id == existing.work_item_type_id
                &&& w.name@ == (match self.name {
                    Some(n) => trimmed(n@),
                    None => existing.name@,
                })
                &&& crate::section_plan::opt_text(w.code) == crate::section_plan::opt_text(existing.code)
                &&& w.status == existing.status
                &&& w.priority == (match self.priority {
                    Some(p) => p,
                    None => existing.priority,
                })
                &&& w.planned_start_at == (match self.planned_start_at {
                    Some(s) => Some(s),
                    None => existing.planned_start_at,
                })
                &&& w.planned_end_at == (match self.planned_end_at {
                    Some(e) => Some(e),
                    None => existing.planned_end_at,
                })
                &&& w.created_at == existing.created_at
                &&& w.updated_at == now
                &&& w.deleted_at == existing.deleted_at
            }),
    {
        let name = match &self.name {
            Some(n) => {
                let t = trim(n.as_str());
                if is_blank(t.as_str()) {
                    return Err(validation("İş kalemi adı boş olamaz."));
                }
                t
            },
            None => existing.name.clone(),
        };
        Ok(WorkItem {
            id: existing.id,
            workspace_id: existing.workspace_id,
            project_id: existing.project_id,
            section_id: existing.section_id,
            work_item_type_id: existing.work_item_type_id,
            name,
            code: copy_text(&existing.code),
            status: existing.status,
            priority: match self.priority {
                Some(p) => p,
                None => existing.priority,
            },
            planned_start_at: match self.planned_start_at {
                Some(s) => Some(s),
                None => existing.planned_start_at,
            },
            planned_end_at: match self.planned_end_at {
                Some(e) => Some(e),
                None => existing.planned_end_at,
            },
            created_at: existing.created_at,
            updated_at: now,
            deleted_at: existing.deleted_at,
        })
    }
}

/// Largest number of leaves one bulk request may fill.
pub const MAX_BULK_LEAVES: usize = 500;

/// A bulk request needs at least one leaf and at most `MAX_BULK_LEAVES`.
pub fn check_leaf_count(leaves: usize) -> (r: Result<(), DomainError>)
    ensures
        leaves == 0 ==> is_validation_err(r, "Bu bölümün altında yaprak bölüm yok."@),
        leaves > 500 ==> is_validation_err(
            r,
            "Çok fazla yaprak bölüm ("@ + decimal(leaves as nat) + " > 500)."@,
        ),
        r is Ok <==> 1 <= leaves <= 500,
{
    if leaves == 0 {
        return Err(validation("Bu bölümün altında yaprak bölüm yok."));
    }
    if leaves > MAX_BULK_LEAVES {
        let mut m = owned("Çok fazla yaprak bölüm (");
        let t = crate::render::nat_to_string(leaves as u64);
        m.append(t.as_str());
        m.append(" > 500).");
        return Err(DomainError::Validation { message: m });
    }
    Ok(())
}

/// The leaves, in order, that hold no item of type `type_id` yet; `taken`
/// lists the (section, type) pairs of the items already there.
pub open spec fn open_leaves(leaves: Seq<Section>, taken: Seq<(u128, u128)>, type_id: u128) -> Seq<Section> {
    leaves.filter(|s: Section| !taken.contains((s.id, type_id)))
}

/// The item placed in a leaf by the bulk generator.
pub open spec fn bulk_item_ok(r: NewWorkItem, leaf: Section, workspace_id: u128, type_id: u128, kind_name: Seq<char>) -> bool {
    &&& r.project_id == leaf.project_id
    &&& r.workspace_id == workspace_id
    &&& r.section_id == leaf.id
    &&& r.work_item_type_id == type_id
    &&& r.name@ == kind_name
    &&& r.code is None
    &&& r.priority == Priority::Normal
}

fn taken_contains(taken: &[(u128, u128)], x: (u128, u128)) -> (r: bool)
    ensures
        r == taken@.contains(x),
{
    let mut i: usize = 0;
    while i < taken.len()
        invariant
            i <= taken@.len(),
            forall|k: int| 0 <= k < i ==> taken@[k] != x,
        decreases taken@.len() - i,
    {
        if taken[i].0 == x.0 && taken[i].1 == x.1 {
            assert(taken@[i as int] == x);
            return true;
        }
        i = i + 1;
    }
    false
}

/// One item of the type, named after it, in every leaf that has none yet
/// (generating twice adds nothing).
pub fn bulk_items(
    leaves: &[Section],
    taken: &[(u128, u128)],
    workspace_id: u128,
    type_id: u128,
    kind_name: &str,
) -> (r: Vec<NewWorkItem>)
    ensures
        r@.len() == open_leaves(leaves@, taken@, type_id).len(),
        forall|k: int| 0 <= k < r@.len() ==> bulk_item_ok(
            #[trigger] r@[k],
            open_leaves(leaves@, taken@, type_id)[k],
            workspace_id,
            type_id,
            kind_name@,
        ),
{
    let mut r: Vec<NewWorkItem> = Vec::new();
    let mut i: usize = 0;
    while i < leaves.len()
        invariant
            i <= leaves@.len(),
            r@.len() == open_leaves(leaves@.subrange(0, i as int), taken@, type_id).len(),
            forall|k: int| 0 <= k < r@.len() ==> bulk_item_ok(
                #[trigger] r@[k],
                open_leaves(leaves@.subrange(0, i as int), taken@, type_id)[k],
                workspace_id,
                type_id,
                kind_name@,
            ),
        decreases leaves@.len() - i,
    {
        let leaf = &leaves[i];
        proof {
            let pre = leaves@.subrange(0, i as int);
            assert(leaves@.subrange(0, i + 1) =~= pre.push(leaves@[i as int]));
            pre.lemma_filter_push(leaves@[i as int], |s: Section| !taken@.contains((s.id, type_id)));
        }
        if !taken_contains(taken, (leaf.id, type_id)) {
            r.push(NewWorkItem {
                project_id: leaf.project_id,
                workspace_id,
                section_id: leaf.id,
                work_item_type_id: type_id,
                name: owned(kind_name),
                code: None,
                priority: Priority::Normal,
            });
        }
        i = i + 1;
    }
    assert(leaves@.subrange(0, leaves@.len() as int) =~= leaves@);
    r
}

/// The (section, type) pairs that the generated items occupy.
pub open spec fn placed_pairs(placed: Seq<Section>, type_id: u128) -> Seq<(u128, u128)> {
    placed.map_values(|s: Section| (s.id, type_id))
}

/// Generating items in bulk twice adds nothing the second time: once the
/// leaves it picked hold an item of the type, no leaf is picked again.
pub proof fn lemma_bulk_items_idempotent(leaves: Seq<Section>, taken: Seq<(u128, u128)>, type_id: u128)
    ensures
        open_leaves(
            leaves,
            taken + placed_pairs(open_leaves(leaves, taken, type_id), type_id),
            type_id,
        ).len() == 0,
{
    broadcast use vstd::seq_lib::group_filter_ensures;

    let picked = open_leaves(leaves, taken, type_id);
    let occupied = taken + placed_pairs(picked, type_id);
    let again = open_leaves(leaves, occupied, type_id);
    if again.len() > 0 {
        let x = again[0];
        assert(!occupied.contains((x.id, type_id)));
        leaves.lemma_filter_contains_rev(|s: Section| !occupied.contains((s.id, type_id)), x);
        let i = choose|i: int| 0 <= i < leaves.len() && leaves[i] == x;
        if taken.contains((x.id, type_id)) {
            let w = choose|w: int| 0 <= w < taken.len() && taken[w] == (x.id, type_id);
            assert(occupied[w] == (x.id, type_id));
        } else {
            assert(picked.contains(leaves[i]));
            let w = choose|w: int| 0 <= w < picked.len() && picked[w] == x;
            assert(placed_pairs(picked, type_id)[w] == (x.id, type_id));
            assert(occupied[taken.len() + w] == (x.id, type_id));
        }
    }
}

// ---------------------------------------------------------------------------
// Property values
// ---------------------------------------------------------------------------

/// A property value as it arrives in a request (the shape of its JSON).
#[derive(Debug)]
pub enum RawValue {
    Null,
    Bool(bool),
    Text(String),
    Number,
    Other,
}

/// A value checked against its property's type. Numbers are read by the
/// caller (`Number`): they are floating point.
#[derive(Debug)]
pub enum Coerced {
    Clear,
    Text(String),
    Boolean(bool),
    Number,
}

/// The options listed by a property's JSON array text (serde_json parsing a
/// `Vec<String>`), or none when the text is no such array.
pub uninterp spec fn json_string_list(text: Seq<char>) -> Option<Seq<Seq<char>>>;

/// serde_json `from_str::<Vec<String>>`: the strings of a JSON array text,
/// `None` when the text is not an array of strings. The parsing itself is
/// left unstated.
#[verifier::external_body]
fn parse_string_list(text: &str) -> (r: Option<Vec<String>>)
    ensures
        match r {
            Some(v) => json_string_list(text@) == Some(v.deep_view()),
            None => json_string_list(text@) is None,
        },
{
    serde_json::from_str::<Vec<String>>(text).ok()
}

/// ASCII case-insensitive equality (std `eq_ignore_ascii_case`).
pub open spec fn ascii_fold(c: char) -> char {
    if 'A' <= c <= 'Z' {
        ((c as u32) + 32) as char
    } else {
        c
    }
}

pub open spec fn eq_ignore_ascii_case(a: Seq<char>, b: Seq<char>) -> bool {
    a.len() == b.len() && forall|i: int| 0 <= i < a.len() ==> ascii_fold(#[trigger] a[i]) == ascii_fold(b[i])
}

fn fold(c: char) -> (r: char)
    ensures
        r == ascii_fold(c),
{
    if 'A' <= c && c <= 'Z' {
        let u = c as u32;
        let b: u8 = (u as u8) + 32;
        b as char
    } else {
        c
    }
}

fn same_word_ignoring_case(s: &str, word: &str) -> (r: bool)
    ensures
        r == eq_ignore_ascii_case(s@, word@),
{
    let v = crate::text::to_chars(s);
    let w = crate::text::to_chars(word);
    if v.len() != w.len() {
        return false;
    }
    let mut i: usize = 0;
    while i < v.len()
        invariant
            v@ == s@,
            w@ == word@,
            v@.len() == w@.len(),
            i <= v@.len(),
            forall|k: int| 0 <= k < i ==> ascii_fold(#[trigger] v@[k]) == ascii_fold(w@[k]),
        decreases v@.len() - i,
    {
        if fold(v[i]) != fold(w[i]) {
            return false;
        }
        i = i + 1;
    }
    true
}

/// The types whose value is stored as text as given.
pub open spec fn is_text_type(t: PropertyDataType) -> bool {
    t == PropertyDataType::Text || t == PropertyDataType::LongText || t == PropertyDataType::Date
        || t == PropertyDataType::Datetime || t == PropertyDataType::MultiSelect
}

/// The message of a refused value of property `name`.
pub open spec fn value_error(name: Seq<char>, detail: Seq<char>) -> Seq<char> {
    "Özellik \""@ + name + "\" için geçersiz değer: "@ + detail
}

/// The options joined by `, `.
pub open spec fn joined(v: Seq<Seq<char>>) -> Seq<char>
    decreases v.len(),
{
    if v.len() == 0 {
        Seq::empty()
    } else if v.len() == 1 {
        v[0]
    } else {
        joined(v.drop_last()) + ", "@ + v.last()
    }
}

fn value_error_text(name: &str, detail: &str) -> (r: DomainError)
    ensures
        r matches DomainError::Validation { message } && message@ == value_error(name@, detail@),
{
    let mut m = owned("Özellik \"");
    m.append(name);
    m.append("\" için geçersiz değer: ");
    m.append(detail);
    DomainError::Validation { message: m }
}

fn join_options(v: &Vec<String>) -> (r: String)
    ensures
        r@ == joined(v.deep_view()),
{
    let mut out = String::new();
    let mut i: usize = 0;
    while i < v.len()
        invariant
            i <= v@.len(),
            out@ == joined(v.deep_view().subrange(0, i as int)),
        decreases v@.len() - i,
    {
        proof {
            assert(v.deep_view().subrange(0, i + 1).drop_last() =~= v.deep_view().subrange(0, i as int));
        }
        if i > 0 {
            out.append(", ");
        } else {
            assert(v.deep_view().subrange(0, 1) =~= seq![v.deep_view()[0]]);
        }
        out.append(v[i].as_str());
        i = i + 1;
    }
    assert(v.deep_view().subrange(0, v@.len() as int) =~= v.deep_view());
    out
}

fn list_has(v: &Vec<String>, x: &str) -> (r: bool)
    ensures
        r == v.deep_view().contains(x@),
{
    let mut i: usize = 0;
    while i < v.len()
        invariant
            i <= v@.len(),
            forall|k: int| 0 <= k < i ==> v.deep_view()[k] != x@,
        decreases v@.len() - i,
    {
        if str_eq(v[i].as_str(), x) {
            assert(v.deep_view()[i as int] == x@);
            return true;
        }
        i = i + 1;
    }
    false
}

/// The options a definition lists: the parsed array, none when absent or
/// not an array of strings.
pub open spec fn options_of(options_json: Option<Seq<char>>) -> Seq<Seq<char>> {
    match options_json {
        Some(t) => match json_string_list(t) {
            Some(v) => v,
            None => Seq::empty(),
        },
        None => Seq::empty(),
    }
}

/// Checks a value against its property's type: null clears the value; the
/// text types take a string; BOOLEAN takes a boolean or the string `true` or
/// `false` in any ASCII case, and refuses any other text; SELECT takes one of the defined
/// options; the numeric types are left to the caller.
pub fn coerce_plain(
    data_type: PropertyDataType,
    name: &str,
    options_json: &Option<String>,
    raw: &RawValue,
) -> (r: Result<Coerced, DomainError>)
    ensures
        raw is Null ==> r matches Ok(Coerced::Clear),
        !(raw is Null) && is_text_type(data_type) ==> match raw {
            RawValue::Text(t) => r matches Ok(Coerced::Text(x)) && x@ == t@,
            _ => is_validation_err(r, value_error(name@, "metin bekleniyor"@)),
        },
        !(raw is Null) && (data_type == PropertyDataType::Number || data_type == PropertyDataType::Decimal)
            ==> r matches Ok(Coerced::Number),
        !(raw is Null) && data_type == PropertyDataType::Boolean ==> match raw {
            RawValue::Bool(b) => r matches Ok(Coerced::Boolean(x)) && x == b,
            RawValue::Text(t) => if eq_ignore_ascii_case(t@, "true"@) {
                r matches Ok(Coerced::Boolean(true))
            } else if eq_ignore_ascii_case(t@, "false"@) {
                r matches Ok(Coerced::Boolean(false))
            } else {
                is_validation_err(r, value_error(name@, "true/false bekleniyor"@))
            },
            _ => is_validation_err(r, value_error(name@, "true/false bekleniyor"@)),
        },
        !(raw is Null) && data_type == PropertyDataType::Select ==> match raw {
            RawValue::Text(t) => if options_of(crate::section_plan::opt_text(*options_json)).contains(t@) {
                r matches Ok(Coerced::Text(x)) && x@ == t@
            } else {
                is_validation_err(
                    r,
                    value_error(
                        name@,
                        "\""@ + t@ + "\" tanımlı seçeneklerden değil ("@ + joined(
                            options_of(crate::section_plan::opt_text(*options_json)),
                        ) + ")"@,
                    ),
                )
            },
            _ => is_validation_err(r, value_error(name@, "seçenek bekleniyor"@)),
        },
{
    match raw {
        RawValue::Null => {
            return Ok(Coerced::Clear);
        },
        _ => {},
    }
    match data_type {
        PropertyDataType::Text | PropertyDataType::LongText | PropertyDataType::Date
        | PropertyDataType::Datetime | PropertyDataType::MultiSelect => match raw {
            RawValue::Text(t) => Ok(Coerced::Text(t.clone())),
            _ => Err(value_error_text(name, "metin bekleniyor")),
        },
        PropertyDataType::Number | PropertyDataType::Decimal => Ok(Coerced::Number),
        PropertyDataType::Boolean => match raw {
            RawValue::Bool(b) => Ok(Coerced::Boolean(*b)),
            RawValue::Text(t) => if same_word_ignoring_case(t.as_str(), "true") {
                Ok(Coerced::Boolean(true))
            } else if same_word_ignoring_case(t.as_str(), "false") {
                Ok(Coerced::Boolean(false))
            } else {
                Err(value_error_text(name, "true/false bekleniyor"))
            },
            _ => Err(value_error_text(name, "true/false bekleniyor")),
        },
        PropertyDataType::Select => match raw {
            RawValue::Text(t) => {
                let options: Vec<String> = match options_json {
                    Some(o) => match parse_string_list(o.as_str()) {
                        Some(v) => v,
                        None => Vec::new(),
                    },
                    None => Vec::new(),
                };
                proof {
                    if options.deep_view().len() == 0 {
                        assert(options.deep_view() =~= Seq::<Seq<char>>::empty());
                    }
                }
                if !list_has(&options, t.as_str()) {
                    let mut d = owned("\"");
                    d.append(t.as_str());
                    d.append("\" tanımlı seçeneklerden değil (");
                    let j = join_options(&options);
                    d.append(j.as_str());
                    d.append(")");
                    return Err(value_error_text(name, d.as_str()));
                }
                Ok(Coerced::Text(t.clone()))
            },
            _ => Err(value_error_text(name, "seçenek bekleniyor")),
        },
    }
}

} // verus!
