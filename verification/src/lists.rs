//! Lists written as text with commas between the items, and the lists of
//! file extensions that a scan takes in or leaves out.

use vstd::prelude::*;
use crate::text::chars_of;
use crate::text::rows;
use crate::text::split_chars;
use crate::text::split_on;
use crate::text::text_of;
use crate::text::texts;
use crate::text::trim_chars;
use crate::text::trimmed;

verus! {

/// The pieces, each without the white space round it, that are not
/// empty.
pub open spec fn kept_items(pieces: Seq<Seq<char>>) -> Seq<Seq<char>>
    decreases pieces.len(),
{
    if pieces.len() == 0 {
        Seq::empty()
    } else {
        let before = kept_items(pieces.drop_last());
        let item = trimmed(pieces.last());
        if item.len() > 0 {
            before.push(item)
        } else {
            before
        }
    }
}

/// The items of the list `s`: what stands between its commas, without
/// the white space round it, but for what is empty.
pub open spec fn list_items(s: Seq<char>) -> Seq<Seq<char>> {
    kept_items(split_on(s, ','))
}

/// The entry `listed` of a list of extensions stands for the extension
/// `ext`: it is the same text, or it is `_` and the file has no
/// extension.
pub open spec fn stands_for(listed: Seq<char>, ext: Seq<char>) -> bool {
    listed == ext || (listed == seq!['_'] && ext.len() == 0)
}

/// Some entry of `list` stands for `ext`.
pub open spec fn extension_listed(ext: Seq<char>, list: Seq<Seq<char>>) -> bool {
    exists|i: int| 0 <= i < list.len() && stands_for(#[trigger] list[i], ext)
}

/// The items of a list such as `jpg, png,gif`.
pub fn extract_from_list(str_list: &str) -> (items: Vec<String>)
    ensures
        texts(items@) == list_items(str_list@),
{
    let v = chars_of(str_list);
    let pieces = split_chars(&v, ',');
    let mut items: Vec<String> = Vec::new();
    let mut i: usize = 0;
    while i < pieces.len()
        invariant
            i <= pieces.len(),
            texts(items@) == kept_items(rows(pieces@).take(i as int)),
        decreases pieces.len() - i,
    {
        proof {
            let upto = rows(pieces@).take(i + 1);
            assert(upto.drop_last() == rows(pieces@).take(i as int));
            assert(upto.last() == pieces@[i as int]@);
        }
        let item = trim_chars(&pieces[i]);
        if item.len() > 0 {
            let ghost before = texts(items@);
            let text = text_of(&item);
            items.push(text);
            assert(texts(items@) == before.push(item@));
        }
        i += 1;
    }
    assert(rows(pieces@).take(pieces.len() as int) == rows(pieces@));
    items
}

/// The extensions of a list such as `jpg, png,gif`.
pub fn extract_extensions(ext_list: &str) -> (items: Vec<String>)
    ensures
        texts(items@) == list_items(ext_list@),
{
    extract_from_list(ext_list)
}

fn matches_empty_extension_ref(match_ext: &str, file_ext: &str) -> (r: bool)
    ensures
        r == stands_for(match_ext@, file_ext@),
{
    proof {
        reveal_strlit("_");
        assert("_"@ =~= seq!['_']);
    }
    match_ext.eq(file_ext) || (match_ext.eq("_") && file_ext.is_empty())
}

/// Some entry of `extensions` stands for `ext`.
fn any_stands_for(ext: &str, extensions: &Vec<String>) -> (r: bool)
    ensures
        r == extension_listed(ext@, texts(extensions@)),
{
    let mut i: usize = 0;
    while i < extensions.len()
        invariant
            i <= extensions.len(),
            forall|j: int| 0 <= j < i ==> !stands_for(#[trigger] texts(extensions@)[j], ext@),
        decreases extensions.len() - i,
    {
        if matches_empty_extension_ref(extensions[i].as_str(), ext) {
            assert(stands_for(texts(extensions@)[i as int], ext@));
            return true;
        }
        i += 1;
    }
    false
}

/// A file with the extension `ext` is taken in by the list
/// `extensions`: the list is empty, or one of its entries stands for
/// `ext`.
pub fn is_in_extensions(ext: &str, extensions: &Vec<String>) -> (r: bool)
    ensures
        r == (extensions@.len() == 0 || extension_listed(ext@, texts(extensions@))),
{
    if extensions.len() > 0 {
        any_stands_for(ext, extensions)
    } else {
        true
    }
}

/// No entry of `extensions` stands for `ext`.
pub fn is_not_in_extensions(ext: &str, extensions: &Vec<String>) -> (r: bool)
    ensures
        r == !extension_listed(ext@, texts(extensions@)),
{
    !any_stands_for(ext, extensions)
}

} // verus!
