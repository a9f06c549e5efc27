use vstd::prelude::*;

use super::strings::{debug_quoted, debug_text, push_char, push_str, str_equal};

verus! {

/// Mathematical model of a GDB/MI value.
pub enum SpecMiValue {
    Const(Seq<char>),
    Tuple(Seq<SpecMiResult>),
    List(Seq<SpecMiListItem>),
}

/// Mathematical model of a named GDB/MI result.
pub struct SpecMiResult {
    pub variable: Seq<char>,
    pub value: SpecMiValue,
}

/// Mathematical model of one GDB/MI list item.
pub enum SpecMiListItem {
    Value(SpecMiValue),
    Result(SpecMiResult),
}

/// A value returned by GDB/MI.
#[derive(Debug, PartialEq, Eq)]
pub enum MiValue {
    /// A quoted or unquoted scalar value.
    Const(String),
    /// A tuple such as `{name="value",child={...}}`.
    Tuple(Vec<MiResult>),
    /// A list containing values or named results.
    List(Vec<MiListItem>),
}

/// A named result in a GDB/MI record.
#[derive(Debug, PartialEq, Eq)]
pub struct MiResult {
    /// Result variable name.
    pub variable: String,
    /// Result value.
    pub value: MiValue,
}

/// One item inside a GDB/MI list.
#[derive(Debug, PartialEq, Eq)]
pub enum MiListItem {
    /// An unnamed list value.
    Value(MiValue),
    /// A named result.
    Result(MiResult),
}

/// The model of a sequence of results.
pub open spec fn results_view(rs: Seq<MiResult>) -> Seq<SpecMiResult>
    decreases rs,
{
    if rs.len() == 0 {
        Seq::empty()
    } else {
        results_view(rs.subrange(0, rs.len() - 1)).push(result_view(rs[rs.len() - 1]))
    }
}

/// The model of a sequence of list items.
pub open spec fn items_view(items: Seq<MiListItem>) -> Seq<SpecMiListItem>
    decreases items,
{
    if items.len() == 0 {
        Seq::empty()
    } else {
        items_view(items.subrange(0, items.len() - 1)).push(item_view(items[items.len() - 1]))
    }
}

/// The model of a named result.
pub open spec fn result_view(r: MiResult) -> SpecMiResult
    decreases r,
{
    SpecMiResult { variable: r.variable@, value: value_view(r.value) }
}

/// The model of a list item.
pub open spec fn item_view(item: MiListItem) -> SpecMiListItem
    decreases item,
{
    match item {
        MiListItem::Value(v) => SpecMiListItem::Value(value_view(v)),
        MiListItem::Result(r) => SpecMiListItem::Result(result_view(r)),
    }
}

/// The model of a value.
pub open spec fn value_view(v: MiValue) -> SpecMiValue
    decreases v,
{
    match v {
        MiValue::Const(s) => SpecMiValue::Const(s@),
        MiValue::Tuple(rs) => SpecMiValue::Tuple(results_view(rs@)),
        MiValue::List(items) => SpecMiValue::List(items_view(items@)),
    }
}

impl View for MiValue {
    type V = SpecMiValue;

    open spec fn view(&self) -> SpecMiValue {
        value_view(*self)
    }
}

impl View for MiResult {
    type V = SpecMiResult;

    open spec fn view(&self) -> SpecMiResult {
        result_view(*self)
    }
}

impl View for MiListItem {
    type V = SpecMiListItem;

    open spec fn view(&self) -> SpecMiListItem {
        item_view(*self)
    }
}

/// The model of a vector of results is the element-wise model.
pub proof fn lemma_results_view(rs: Seq<MiResult>)
    ensures
        results_view(rs).len() == rs.len(),
        forall|i: int| 0 <= i < rs.len() ==> #[trigger] results_view(rs)[i] == result_view(rs[i]),
    decreases rs.len(),
{
    if rs.len() > 0 {
        lemma_results_view(rs.subrange(0, rs.len() - 1));
    }
}

/// The model of a vector of list items is the element-wise model.
pub proof fn lemma_items_view(items: Seq<MiListItem>)
    ensures
        items_view(items).len() == items.len(),
        forall|i: int|
            0 <= i < items.len() ==> #[trigger] items_view(items)[i] == item_view(items[i]),
    decreases items.len(),
{
    if items.len() > 0 {
        lemma_items_view(items.subrange(0, items.len() - 1));
    }
}

/// Pushing a result extends the model by its view.
pub proof fn lemma_results_view_push(rs: Seq<MiResult>, r: MiResult)
    ensures
        results_view(rs.push(r)) == results_view(rs).push(result_view(r)),
{
    assert(rs.push(r).subrange(0, rs.len() as int) =~= rs);
}

/// Pushing an item extends the model by its view.
pub proof fn lemma_items_view_push(items: Seq<MiListItem>, item: MiListItem)
    ensures
        items_view(items.push(item)) == items_view(items).push(item_view(item)),
{
    assert(items.push(item).subrange(0, items.len() as int) =~= items);
}

impl MiValue {
    /// Returns the scalar value when this is [`MiValue::Const`].
    pub fn as_const(&self) -> (res: Option<&str>)
        ensures
            match self {
                MiValue::Const(s) => res is Some && res->Some_0@ == s@,
                _ => res is None,
            },
    {
        match self {
            MiValue::Const(value) => Some(value.as_str()),
            MiValue::Tuple(_) | MiValue::List(_) => None,
        }
    }

    /// Returns the tuple members when this is [`MiValue::Tuple`].
    pub fn as_tuple(&self) -> (res: Option<&[MiResult]>)
        ensures
            match self {
                MiValue::Tuple(rs) => res is Some && res->Some_0@ == rs@,
                _ => res is None,
            },
    {
        match self {
            MiValue::Tuple(results) => Some(results.as_slice()),
            MiValue::Const(_) | MiValue::List(_) => None,
        }
    }

    /// Returns the list items when this is [`MiValue::List`].
    pub fn as_list(&self) -> (res: Option<&[MiListItem]>)
        ensures
            match self {
                MiValue::List(items) => res is Some && res->Some_0@ == items@,
                _ => res is None,
            },
    {
        match self {
            MiValue::List(items) => Some(items.as_slice()),
            MiValue::Const(_) | MiValue::Tuple(_) => None,
        }
    }
}

impl MiResult {
    /// Creates a named MI result.
    pub fn new(variable: &str, value: MiValue) -> (res: MiResult)
        ensures
            res.variable@ == variable@,
            res.value == value,
    {
        MiResult { variable: variable.to_owned(), value }
    }
}

} // verus!

verus! {

/// Index of the first result at or after `k` that is named `name`, if any.
pub open spec fn first_named_from(results: Seq<MiResult>, name: Seq<char>, k: int) -> Option<int>
    decreases results.len() - k,
{
    if k < 0 || k >= results.len() {
        None
    } else if results[k].variable@ == name {
        Some(k)
    } else {
        first_named_from(results, name, k + 1)
    }
}

/// Index of the first result named `name`, if any.
pub open spec fn first_named(results: Seq<MiResult>, name: Seq<char>) -> Option<int> {
    first_named_from(results, name, 0)
}

/// `first_named_from` returns the index of a matching result that no
/// earlier result (from `k` on) matches.
pub proof fn lemma_first_named(results: Seq<MiResult>, name: Seq<char>, k: int)
    requires
        0 <= k,
    ensures
        first_named_from(results, name, k) matches Some(i) ==> k <= i < results.len()
            && results[i].variable@ == name && forall|j: int|
            k <= j < i ==> #[trigger] results[j].variable@ != name,
        first_named_from(results, name, k) is None ==> forall|j: int|
            k <= j < results.len() ==> #[trigger] results[j].variable@ != name,
    decreases results.len() - k,
{
    if k < results.len() && results[k].variable@ != name {
        lemma_first_named(results, name, k + 1);
    }
}

/// Returns the value of the first result named `name`.
pub fn find_result<'a>(results: &'a [MiResult], name: &str) -> (res: Option<&'a MiValue>)
    ensures
        match first_named(results@, name@) {
            Some(i) => res matches Some(v) && *v == results@[i].value,
            None => res is None,
        },
{
    let mut i: usize = 0;
    while i < results.len()
        invariant
            i <= results.len(),
            first_named(results@, name@) == first_named_from(results@, name@, i as int),
        decreases results.len() - i,
    {
        if str_equal(results[i].variable.as_str(), name) {
            return Some(&results[i].value);
        }
        i = i + 1;
    }
    None
}

} // verus!

verus! {

/// The text of a value as GDB/MI writes it: constants quoted in their
/// `Debug` form, tuples in braces and lists in brackets, members separated
/// by commas and named results written `name=value`.
pub open spec fn value_text(v: SpecMiValue) -> Seq<char>
    decreases v,
{
    match v {
        SpecMiValue::Const(s) => debug_text(s),
        SpecMiValue::Tuple(rs) => seq!['{'] + results_text(rs) + seq!['}'],
        SpecMiValue::List(items) => seq!['['] + items_text(items) + seq![']'],
    }
}

/// The text of a named result: `name=value`.
pub open spec fn result_text(r: SpecMiResult) -> Seq<char>
    decreases r,
{
    r.variable + seq!['='] + value_text(r.value)
}

/// The text of a list item.
pub open spec fn item_text(item: SpecMiListItem) -> Seq<char>
    decreases item,
{
    match item {
        SpecMiListItem::Value(v) => value_text(v),
        SpecMiListItem::Result(r) => result_text(r),
    }
}

/// The texts of results, separated by commas.
pub open spec fn results_text(rs: Seq<SpecMiResult>) -> Seq<char>
    decreases rs,
{
    if rs.len() == 0 {
        Seq::empty()
    } else if rs.len() == 1 {
        result_text(rs[0])
    } else {
        results_text(rs.subrange(0, rs.len() - 1)) + seq![','] + result_text(rs[rs.len() - 1])
    }
}

/// The texts of list items, separated by commas.
pub open spec fn items_text(items: Seq<SpecMiListItem>) -> Seq<char>
    decreases items,
{
    if items.len() == 0 {
        Seq::empty()
    } else if items.len() == 1 {
        item_text(items[0])
    } else {
        items_text(items.subrange(0, items.len() - 1)) + seq![','] + item_text(items[items.len() - 1])
    }
}

fn write_value(v: &MiValue, out: &mut String)
    ensures
        final(out)@ == old(out)@ + value_text(v@),
    decreases v,
{
    match v {
        MiValue::Const(s) => {
            let quoted = debug_quoted(s.as_str());
            push_str(out, quoted.as_str());
        },
        MiValue::Tuple(rs) => {
            let ghost start = out@;
            let ghost views = results_view(rs@);
            proof {
                lemma_results_view(rs@);
            }
            push_char(out, '{');
            let mut i: usize = 0;
            assert(views.subrange(0, 0) =~= Seq::<SpecMiResult>::empty());
            while i < rs.len()
                invariant
                    i <= rs@.len(),
                    *v == MiValue::Tuple(*rs),
                    views == results_view(rs@),
                    views.len() == rs@.len(),
                    forall|j: int| 0 <= j < rs@.len() ==> #[trigger] views[j] == result_view(rs@[j]),
                    out@ == start + seq!['{'] + results_text(views.subrange(0, i as int)),
                decreases rs@.len() - i,
            {
                let ghost before = out@;
                if i != 0 {
                    push_char(out, ',');
                }
                proof {
                    let f = v->Tuple_0;
                    assert(decreases_to!(*v => v->Tuple_0));
                    assert(decreases_to!(f => f@));
                    assert(decreases_to!(f@ => f@[i as int]));
                }
                write_result(&rs[i], out);
                proof {
                    let prefix = views.subrange(0, i + 1);
                    assert(prefix.subrange(0, i as int) =~= views.subrange(0, i as int));
                    assert(prefix[i as int] == views[i as int]);
                    if i == 0 {
                        assert(results_text(views.subrange(0, 0)) =~= Seq::<char>::empty());
                    }
                    assert(out@ =~= start + seq!['{'] + results_text(prefix));
                }
                i = i + 1;
            }
            push_char(out, '}');
            assert(views.subrange(0, i as int) =~= views);
            assert(out@ =~= start + value_text(v@));
        },
        MiValue::List(items) => {
            let ghost start = out@;
            let ghost views = items_view(items@);
            proof {
                lemma_items_view(items@);
            }
            push_char(out, '[');
            let mut i: usize = 0;
            assert(views.subrange(0, 0) =~= Seq::<SpecMiListItem>::empty());
            while i < items.len()
                invariant
                    i <= items@.len(),
                    *v == MiValue::List(*items),
                    views == items_view(items@),
                    views.len() == items@.len(),
                    forall|j: int| 0 <= j < items@.len() ==> #[trigger] views[j] == item_view(items@[j]),
                    out@ == start + seq!['['] + items_text(views.subrange(0, i as int)),
                decreases items@.len() - i,
            {
                if i != 0 {
                    push_char(out, ',');
                }
                proof {
                    let f = v->List_0;
                    assert(decreases_to!(*v => v->List_0));
                    assert(decreases_to!(f => f@));
                    assert(decreases_to!(f@ => f@[i as int]));
                }
                write_item(&items[i], out);
                proof {
                    let prefix = views.subrange(0, i + 1);
                    assert(prefix.subrange(0, i as int) =~= views.subrange(0, i as int));
                    assert(prefix[i as int] == views[i as int]);
                    if i == 0 {
                        assert(items_text(views.subrange(0, 0)) =~= Seq::<char>::empty());
                    }
                    assert(out@ =~= start + seq!['['] + items_text(prefix));
                }
                i = i + 1;
            }
            push_char(out, ']');
            assert(views.subrange(0, i as int) =~= views);
            assert(out@ =~= start + value_text(v@));
        },
    }
}

fn write_result(r: &MiResult, out: &mut String)
    ensures
        final(out)@ == old(out)@ + result_text(r@),
    decreases r,
{
    let ghost start = out@;
    push_str(out, r.variable.as_str());
    push_char(out, '=');
    write_value(&r.value, out);
    assert(out@ =~= start + result_text(r@));
}

fn write_item(item: &MiListItem, out: &mut String)
    ensures
        final(out)@ == old(out)@ + item_text(item@),
    decreases item,
{
    match item {
        MiListItem::Value(v) => write_value(v, out),
        MiListItem::Result(r) => write_result(r, out),
    }
}

impl MiValue {
    /// The text of the value as GDB/MI writes it, with constants quoted.
    pub fn to_display_string(&self) -> (res: String)
        ensures
            res@ == value_text(self@),
    {
        let mut out = String::new();
        write_value(self, &mut out);
        assert(out@ =~= value_text(self@));
        out
    }
}

} // verus!
