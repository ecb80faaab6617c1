//! What a caller makes of a listing: the folder to descend into, and the
//! images to choose from.

use crate::dom::{attr_of, attribute, first_text, first_text_of};
use crate::listing::{column_of, date_of, first_child_of, link_of, Element};
use crate::text::{contains_char, contains_text, ends_with, has_infix, has_suffix, option_text, texts};
use crate::timestamp::Timestamp;
use scraper::ElementRef;
use vstd::prelude::*;

verus! {

/// The link and the date of a row, where it has both.
pub open spec fn link_and_date_of(entry: Element) -> Option<(ElementRef, Timestamp)> {
    match link_of(entry.element, entry.layout) {
        Some(link) => match date_of(entry.element, entry.layout) {
            Some(date) => Some((link, date)),
            None => None,
        },
        None => None,
    }
}

/// A name that holds neither an underscore nor a hyphen.
pub open spec fn is_plain_name(name: Seq<char>) -> bool {
    !name.contains('_') && !name.contains('-')
}

/// The address of the folder that an entry stands for: the `href` of its
/// link, where the entry has a link and a date and the text of the link is a
/// plain name.
pub open spec fn folder_href_of(entry: Element) -> Option<Seq<char>> {
    match link_and_date_of(entry) {
        Some((link, _)) => match first_text_of(link) {
            Some(name) => if is_plain_name(name) {
                attr_of(link, "href"@)
            } else {
                None
            },
            None => None,
        },
        None => None,
    }
}

/// The address of the first folder among the entries from index `from` on.
pub open spec fn first_folder_from(entries: Seq<Element>, from: int) -> Option<Seq<char>>
    decreases entries.len() - from,
{
    if from < 0 || from >= entries.len() {
        None
    } else if folder_href_of(entries[from]) is Some {
        folder_href_of(entries[from])
    } else {
        first_folder_from(entries, from + 1)
    }
}

/// An address that ends like an image file and is neither a thumbnail nor an
/// icon.
pub open spec fn is_image_href(href: Seq<char>) -> bool {
    &&& has_suffix(href, ".jpg"@) || has_suffix(href, ".jpeg"@) || has_suffix(href, ".png"@)
    &&& !has_infix(href, "is."@)
    &&& !has_infix(href, "icon."@)
}

/// The address of the image that an entry stands for: the `href` of its
/// link, where it is the address of an image.
pub open spec fn image_href_of(entry: Element) -> Option<Seq<char>> {
    match link_of(entry.element, entry.layout) {
        Some(link) => match attr_of(link, "href"@) {
            Some(href) => if is_image_href(href) {
                Some(href)
            } else {
                None
            },
            None => None,
        },
        None => None,
    }
}

/// The addresses of the images among the entries, in their order.
pub open spec fn image_hrefs_of(entries: Seq<Element>) -> Seq<Seq<char>>
    decreases entries.len(),
{
    if entries.len() == 0 {
        Seq::empty()
    } else {
        match image_href_of(entries.last()) {
            Some(href) => image_hrefs_of(entries.drop_last()).push(href),
            None => image_hrefs_of(entries.drop_last()),
        }
    }
}

/// The entries of a listing without its final row.
pub open spec fn without_final_row(entries: Seq<Element>) -> Seq<Element> {
    if entries.len() > 0 {
        entries.drop_last()
    } else {
        entries
    }
}

/// The images to choose from: the addresses of the images among the
/// entries, once the final row of the listing is left out.
pub open spec fn image_candidates_of(entries: Seq<Element>) -> Seq<Seq<char>> {
    image_hrefs_of(without_final_row(entries))
}

/// `chosen` holds `amount` items of `items`, or all of them where there are
/// fewer, each taken from a position of its own.
pub open spec fn is_sample_of<T>(chosen: Seq<T>, items: Seq<T>, amount: nat) -> bool {
    &&& chosen.len() == if amount <= items.len() {
        amount
    } else {
        items.len()
    }
    &&& exists|picks: Seq<int>| is_picked_at(chosen, items, picks)
}

/// `chosen` holds the items at the positions `picks`, no position twice.
pub open spec fn is_picked_at<T>(chosen: Seq<T>, items: Seq<T>, picks: Seq<int>) -> bool {
    &&& picks.len() == chosen.len()
    &&& forall|i: int|
        0 <= i < picks.len() ==> 0 <= #[trigger] picks[i] < items.len() && chosen[i]
            == items[picks[i]]
    &&& forall|i: int, j: int|
        0 <= i < j < picks.len() ==> #[trigger] picks[i] != #[trigger] picks[j]
}

/// A row whose name cell holds an element, but which has no cell over the
/// date column, has a link and no date, and the filter that asks for a link
/// and a date drops it.
pub proof fn law_link_without_date_is_filtered_out(entry: Element)
    requires
        column_of(entry.element, entry.layout.link_position) matches Some(cell) && first_child_of(
            cell,
        ) is Some,
        column_of(entry.element, entry.layout.date_position) is None,
    ensures
        link_of(entry.element, entry.layout) is Some,
        date_of(entry.element, entry.layout) is None,
        link_and_date_of(entry) is None,
        folder_href_of(entry) is None,
{
}

/// Where the final row of a listing is no image, every image of the listing
/// is one to choose from.
pub proof fn law_only_the_final_row_is_left_out(entries: Seq<Element>)
    ensures
        entries.len() > 0 && image_href_of(entries.last()) is None ==> image_candidates_of(entries)
            == image_hrefs_of(entries),
        entries.len() > 0 ==> image_candidates_of(entries) == image_hrefs_of(entries.drop_last()),
        entries.len() > 0 && image_href_of(entries.last()) is Some ==> image_hrefs_of(entries)
            == image_candidates_of(entries).push(image_href_of(entries.last())->0),
{
}

/// The link and the date of an entry, where it has both.
pub fn link_and_date<'a>(entry: &Element<'a>) -> (both: Option<(ElementRef<'a>, Timestamp)>)
    ensures
        both == link_and_date_of(*entry),
{
    let link = match entry.get_link() {
        Some(link) => link,
        None => {
            return None;
        },
    };
    match entry.get_date() {
        Some(date) => Some((link, date)),
        None => None,
    }
}

/// Tells whether a name holds neither an underscore nor a hyphen.
pub fn plain_name(name: &str) -> (r: bool)
    ensures
        r == is_plain_name(name@),
{
    !contains_char(name, '_') && !contains_char(name, '-')
}

/// The address of the folder that an entry stands for, if it stands for
/// one.
pub fn folder_href<'a>(entry: &Element<'a>) -> (href: Option<&'a str>)
    ensures
        option_text(href) == folder_href_of(*entry),
{
    let link = match link_and_date(entry) {
        Some((link, _)) => link,
        None => {
            return None;
        },
    };
    match first_text(link) {
        Some(name) => if plain_name(name) {
            attribute(link, "href")
        } else {
            None
        },
        None => None,
    }
}

/// The address of the first folder among the entries.
pub fn first_folder<'a>(entries: &[Element<'a>]) -> (href: Option<&'a str>)
    ensures
        option_text(href) == first_folder_from(entries@, 0),
{
    let mut i: usize = 0;
    while i < entries.len()
        invariant
            i <= entries@.len(),
            first_folder_from(entries@, i as int) == first_folder_from(entries@, 0),
        decreases entries@.len() - i,
    {
        let href = folder_href(&entries[i]);
        if href.is_some() {
            return href;
        }
        i += 1;
    }
    None
}

/// Tells whether an address is that of an image to choose from.
pub fn image_href(href: &str) -> (r: bool)
    ensures
        r == is_image_href(href@),
{
    (ends_with(href, ".jpg") || ends_with(href, ".jpeg") || ends_with(href, ".png"))
        && !contains_text(href, "is.") && !contains_text(href, "icon.")
}

/// The images to choose from: the addresses of the images among the
/// entries, in their order. The final row of the listing is left out,
/// whatever it holds; every other image stays.
pub fn image_candidates<'a>(entries: &[Element<'a>]) -> (found: Vec<&'a str>)
    ensures
        texts(found@) == image_candidates_of(entries@),
{
    let rows = if entries.len() > 0 {
        entries.len() - 1
    } else {
        0
    };
    let mut found: Vec<&'a str> = Vec::new();
    let mut i: usize = 0;
    assert(entries@.take(0) =~= Seq::empty());
    assert(texts(found@) =~= Seq::empty());
    while i < rows
        invariant
            i <= rows <= entries@.len(),
            texts(found@) == image_hrefs_of(entries@.take(i as int)),
        decreases rows - i,
    {
        let ghost before = found@;
        let entry = &entries[i];
        proof {
            assert(entries@.take(i + 1).drop_last() =~= entries@.take(i as int));
            assert(entries@.take(i + 1).last() == *entry);
        }
        if let Some(link) = entry.get_link() {
            if let Some(href) = attribute(link, "href") {
                if image_href(href) {
                    found.push(href);
                    assert(texts(found@) =~= texts(before).push(href@));
                }
            }
        }
        i += 1;
    }
    assert(entries@.take(rows as int) =~= without_final_row(entries@));
    found
}

/// Calls `rand::seq::index::sample` with the generator of the current
/// thread.
///
/// Trusted: whatever the generator gives, the result holds `amount` indices,
/// each one below `length`, and none of them twice.
#[verifier::external_body]
fn sample_indices(length: usize, amount: usize) -> (picked: Vec<usize>)
    requires
        amount <= length,
    ensures
        picked@.len() == amount,
        forall|i: int| 0 <= i < picked@.len() ==> #[trigger] picked@[i] < length,
        forall|i: int, j: int|
            0 <= i < j < picked@.len() ==> #[trigger] picked@[i] != #[trigger] picked@[j],
{
    rand::seq::index::sample(&mut rand::rng(), length, amount).into_vec()
}

/// The items at the given positions, in the order of the positions.
fn items_at<T: Copy>(items: &[T], picked: &[usize]) -> (chosen: Vec<T>)
    requires
        forall|i: int| 0 <= i < picked@.len() ==> #[trigger] picked@[i] < items@.len(),
    ensures
        chosen@.len() == picked@.len(),
        forall|i: int| 0 <= i < picked@.len() ==> #[trigger] chosen@[i] == items@[picked@[i] as int],
{
    let mut chosen: Vec<T> = Vec::new();
    let mut i: usize = 0;
    while i < picked.len()
        invariant
            i <= picked@.len(),
            chosen@.len() == i,
            forall|k: int| 0 <= k < picked@.len() ==> #[trigger] picked@[k] < items@.len(),
            forall|k: int| 0 <= k < i ==> #[trigger] chosen@[k] == items@[picked@[k] as int],
        decreases picked@.len() - i,
    {
        chosen.push(items[picked[i]]);
        i += 1;
    }
    chosen
}

/// Chooses `amount` of the items at random, or all of them where there are
/// fewer, none of them twice, in random order.
pub fn choose_multiple<T: Copy>(items: &[T], amount: usize) -> (chosen: Vec<T>)
    ensures
        is_sample_of(chosen@, items@, amount as nat),
{
    let wanted = if amount <= items.len() {
        amount
    } else {
        items.len()
    };
    let picked = sample_indices(items.len(), wanted);
    let chosen = items_at(items, picked.as_slice());
    proof {
        let picks = Seq::new(picked@.len(), |i: int| picked@[i] as int);
        assert(is_picked_at(chosen@, items@, picks));
    }
    chosen
}

} // verus!
