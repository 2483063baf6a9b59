//! Property lists: the values that the manifest of a package is made of, and
//! the decoder that reads them.

use vstd::prelude::*;

verus! {

/// A value of a property list, as far as a manifest is read.
#[derive(Debug, PartialEq, Eq)]
pub enum PlistValue {
    /// The items in their order.
    Array(Vec<PlistValue>),
    /// The entries as pairs of key and value, in the order of the
    /// dictionary. The decoder yields no key twice.
    Dictionary(Vec<(String, PlistValue)>),
    String(String),
    /// A boolean, a number, a date, data or a uid.
    Other,
}

/// A [`PlistValue`] as character sequences.
pub enum PlistView {
    Array(Seq<PlistView>),
    Dictionary(Seq<(Seq<char>, PlistView)>),
    String(Seq<char>),
    Other,
}

/// The view of a value: that of each item of an array, of each key and
/// value of a dictionary, of a string.
pub open spec fn view_of(value: PlistValue) -> PlistView
    decreases value,
{
    match value {
        PlistValue::Array(items) => PlistView::Array(
            Seq::new(
                items@.len(),
                |i: int|
                    if 0 <= i < items@.len() {
                        view_of(items@[i])
                    } else {
                        PlistView::Other
                    },
            ),
        ),
        PlistValue::Dictionary(entries) => PlistView::Dictionary(
            Seq::new(
                entries@.len(),
                |i: int|
                    if 0 <= i < entries@.len() {
                        (entries@[i].0@, view_of(entries@[i].1))
                    } else {
                        (Seq::empty(), PlistView::Other)
                    },
            ),
        ),
        PlistValue::String(text) => PlistView::String(text@),
        PlistValue::Other => PlistView::Other,
    }
}

impl DeepView for PlistValue {
    type V = PlistView;

    open spec fn deep_view(&self) -> PlistView {
        view_of(*self)
    }
}

/// The view of an array holds the views of its items.
pub proof fn lemma_array_view(items: Vec<PlistValue>)
    ensures
        PlistValue::Array(items).deep_view() == PlistView::Array(items.deep_view()),
{
    assert(view_of(PlistValue::Array(items))->Array_0 =~= items.deep_view());
}

/// The view of a dictionary holds the keys and the views of the values.
pub proof fn lemma_dictionary_view(entries: Vec<(String, PlistValue)>)
    ensures
        PlistValue::Dictionary(entries).deep_view() == PlistView::Dictionary(entries.deep_view()),
{
    assert(view_of(PlistValue::Dictionary(entries))->Dictionary_0 =~= entries.deep_view());
}

/// `plist::Value`, which is seen only through [`convert_value`].
#[verifier::external_type_specification]
#[verifier::external_body]
pub struct ExValue(plist::Value);

/// What a value of the decoder holds.
pub uninterp spec fn value_of(value: plist::Value) -> PlistView;

/// The value that the bytes of a property list encode, in any of its
/// encodings; `None` where the decoder rejects them.
pub uninterp spec fn plist_document(bytes: Seq<u8>) -> Option<PlistView>;

/// Decodes a property list with `plist::from_bytes`, which finds out the
/// encoding and builds the value, and fails where the bytes are malformed.
///
/// Taken on trust: the value depends on the bytes alone.
#[verifier::external_body]
pub(crate) fn parse_plist(bytes: &[u8]) -> (r: Option<plist::Value>)
    ensures
        match r {
            Some(value) => plist_document(bytes@) == Some(value_of(value)),
            None => plist_document(bytes@) is None,
        },
{
    plist::from_bytes(bytes).ok()
}

/// Copies a `plist::Value`, variant by variant: the items of an array and
/// the entries of a dictionary in the order in which `iter` walks them,
/// which is their order in the document; a string as it is; of any other
/// variant nothing.
///
/// Taken on trust: the copy is what [`value_of`] stands for.
#[verifier::external_body]
pub(crate) fn convert_value(value: &plist::Value) -> (r: PlistValue)
    ensures
        r.deep_view() == value_of(*value),
{
    match value {
        plist::Value::Array(items) => PlistValue::Array(items.iter().map(convert_value).collect()),
        plist::Value::Dictionary(entries) => PlistValue::Dictionary(
            entries.iter().map(|(k, v)| (k.clone(), convert_value(v))).collect(),
        ),
        plist::Value::String(text) => PlistValue::String(text.clone()),
        _ => PlistValue::Other,
    }
}

} // verus!
