use vstd::prelude::*;
use vstd::string::StringExecFns;

verus! {

/// The text that the standard library's `{:?}` formatting gives for one
/// string: the string between double quotes, with its special characters
/// escaped.
pub uninterp spec fn debug_text(text: Seq<char>) -> Seq<char>;

/// Calls `format!` with `{:?}` on a string slice. The contract names the
/// result [`debug_text`] of the string's contents and claims nothing else
/// of it: the escaping rules are the standard library's.
#[verifier::external_body]
fn format_text(text: &str) -> (shown: String)
    ensures
        shown@ == debug_text(text@),
{
    format!("{:?}", text)
}

/// The items of a list as `{:?}` shows them, with a comma and a space
/// between one and the next.
pub open spec fn debug_items(items: Seq<Seq<char>>) -> Seq<char>
    decreases items.len(),
{
    if items.len() == 0 {
        Seq::empty()
    } else if items.len() == 1 {
        debug_text(items[0])
    } else {
        debug_items(items.drop_last()) + ", "@ + debug_text(items.last())
    }
}

/// A list of strings as `{:?}` shows it: the items between square
/// brackets.
pub open spec fn debug_list(items: Seq<Seq<char>>) -> Seq<char> {
    "["@ + debug_items(items) + "]"@
}

/// Shows a list of strings as `{:?}` does.
pub fn debug_list_text(items: &Vec<String>) -> (text: String)
    ensures
        text@ == debug_list(items.deep_view()),
{
    let ghost names = items.deep_view();
    let mut text = String::from_str("[");
    let mut i: usize = 0;
    while i < items.len()
        invariant
            i <= items@.len(),
            names == items.deep_view(),
            text@ == "["@ + debug_items(names.subrange(0, i as int)),
        decreases items@.len() - i,
    {
        let ghost before = names.subrange(0, i as int);
        let ghost after = names.subrange(0, i + 1);
        if i > 0 {
            text.append(", ");
        }
        let shown = format_text(items[i].as_str());
        text.append(shown.as_str());
        proof {
            assert(after.drop_last() == before);
            assert(after.last() == items@[i as int]@);
            if i == 0 {
                assert(debug_items(before) == Seq::<char>::empty());
                assert(text@ == "["@ + debug_text(after[0]));
            } else {
                assert(text@ == "["@ + (debug_items(before) + ", "@ + debug_text(after.last())));
            }
        }
        i = i + 1;
    }
    proof {
        assert(names.subrange(0, i as int) == names);
    }
    text.append("]");
    text
}

/// Message of a direct lookup that found a binding of another type.
pub open spec fn direct_type_mismatch(name: Seq<char>) -> Seq<char> {
    "Direct downcast value failed, key: '"@ + name + "'"@
}

/// Message of a direct lookup that found no binding.
pub open spec fn direct_key_not_found(name: Seq<char>) -> Seq<char> {
    "Direct key: "@ + name
}

/// Message of a resolution that found a factory for another type.
pub open spec fn factory_type_mismatch(name: Seq<char>) -> Seq<char> {
    "Downcast factory failed, key: '"@ + name + "'"@
}

/// Message of a resolution that found a value of another type.
pub open spec fn value_type_mismatch(name: Seq<char>) -> Seq<char> {
    "Downcast value failed, key: '"@ + name + "'"@
}

/// Message of a resolution that found no binding, around the chain of keys
/// as it is shown.
pub open spec fn key_not_found_around(name: Seq<char>, shown: Seq<char>) -> Seq<char> {
    "key: "@ + name + ", stack: "@ + shown
}

/// Message of a resolution that found no binding, with the chain of keys
/// that led to it.
pub open spec fn key_not_found(name: Seq<char>, chain: Seq<Seq<char>>) -> Seq<char> {
    key_not_found_around(name, debug_list(chain))
}

/// Message of a resolution that came back to a key of its own chain,
/// around the chain as it is shown.
pub open spec fn circular_dependency_around(name: Seq<char>, shown: Seq<char>) -> Seq<char> {
    "name: '"@ + name + "', stack: "@ + shown
}

/// Message of a resolution that came back to a key of its own chain.
pub open spec fn circular_dependency(name: Seq<char>, chain: Seq<Seq<char>>) -> Seq<char> {
    circular_dependency_around(name, debug_list(chain))
}

/// Message of a scoped resolution that found the name in none of its
/// scopes, around the scopes as they are shown.
pub open spec fn scope_exhausted_around(name: Seq<char>, shown: Seq<char>) -> Seq<char> {
    "'"@ + name + "' not found in scope list "@ + shown
}

/// Message of a scoped resolution that found the name in none of its scopes.
pub open spec fn scope_exhausted(name: Seq<char>, scopes: Seq<Seq<char>>) -> Seq<char> {
    scope_exhausted_around(name, debug_list(scopes))
}

/// Message of a direct scoped lookup that found the name in none of its
/// scopes, around the scopes as they are shown.
pub open spec fn direct_scope_exhausted_around(name: Seq<char>, shown: Seq<char>) -> Seq<char> {
    "Direct '"@ + name + "' not found in scope list "@ + shown
}

/// Message of a direct scoped lookup that found the name in none of its
/// scopes.
pub open spec fn direct_scope_exhausted(name: Seq<char>, scopes: Seq<Seq<char>>) -> Seq<char> {
    direct_scope_exhausted_around(name, debug_list(scopes))
}

/// Builds `before + name + after`.
fn wrap(before: &str, name: &str, after: &str) -> (text: String)
    ensures
        text@ == before@ + name@ + after@,
{
    let mut text = String::from_str(before);
    text.append(name);
    text.append(after);
    text
}

/// Builds `before + name + between + shown`.
fn wrap_around(before: &str, name: &str, between: &str, shown: &str) -> (text: String)
    ensures
        text@ == before@ + name@ + between@ + shown@,
{
    let mut text = wrap(before, name, between);
    text.append(shown);
    text
}

pub fn direct_type_mismatch_text(name: &str) -> (text: String)
    ensures
        text@ == direct_type_mismatch(name@),
{
    wrap("Direct downcast value failed, key: '", name, "'")
}

pub fn direct_key_not_found_text(name: &str) -> (text: String)
    ensures
        text@ == direct_key_not_found(name@),
{
    let mut text = String::from_str("Direct key: ");
    text.append(name);
    text
}

pub fn factory_type_mismatch_text(name: &str) -> (text: String)
    ensures
        text@ == factory_type_mismatch(name@),
{
    wrap("Downcast factory failed, key: '", name, "'")
}

pub fn value_type_mismatch_text(name: &str) -> (text: String)
    ensures
        text@ == value_type_mismatch(name@),
{
    wrap("Downcast value failed, key: '", name, "'")
}

pub fn key_not_found_around_text(name: &str, shown: &str) -> (text: String)
    ensures
        text@ == key_not_found_around(name@, shown@),
{
    wrap_around("key: ", name, ", stack: ", shown)
}

pub fn key_not_found_text(name: &str, chain: &Vec<String>) -> (text: String)
    ensures
        text@ == key_not_found(name@, chain.deep_view()),
{
    let shown = debug_list_text(chain);
    key_not_found_around_text(name, shown.as_str())
}

pub fn circular_dependency_around_text(name: &str, shown: &str) -> (text: String)
    ensures
        text@ == circular_dependency_around(name@, shown@),
{
    wrap_around("name: '", name, "', stack: ", shown)
}

pub fn circular_dependency_text(name: &str, chain: &Vec<String>) -> (text: String)
    ensures
        text@ == circular_dependency(name@, chain.deep_view()),
{
    let shown = debug_list_text(chain);
    circular_dependency_around_text(name, shown.as_str())
}

pub fn scope_exhausted_around_text(name: &str, shown: &str) -> (text: String)
    ensures
        text@ == scope_exhausted_around(name@, shown@),
{
    wrap_around("'", name, "' not found in scope list ", shown)
}

pub fn scope_exhausted_text(name: &str, scopes: &Vec<String>) -> (text: String)
    ensures
        text@ == scope_exhausted(name@, scopes.deep_view()),
{
    let shown = debug_list_text(scopes);
    scope_exhausted_around_text(name, shown.as_str())
}

pub fn direct_scope_exhausted_around_text(name: &str, shown: &str) -> (text: String)
    ensures
        text@ == direct_scope_exhausted_around(name@, shown@),
{
    wrap_around("Direct '", name, "' not found in scope list ", shown)
}

pub fn direct_scope_exhausted_text(name: &str, scopes: &Vec<String>) -> (text: String)
    ensures
        text@ == direct_scope_exhausted(name@, scopes.deep_view()),
{
    let shown = debug_list_text(scopes);
    direct_scope_exhausted_around_text(name, shown.as_str())
}

} // verus!
