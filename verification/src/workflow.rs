//! The decisions of the program around the listing: which folder and which
//! images to fetch, how much of a response to keep, and how long to wait
//! before another attempt. Fetching, waiting and setting the wallpaper are
//! left to the caller.

use crate::address::{all_join, join_all, join_url, joined_all, joined_url};
use crate::listing::{apache_grzyby_index_iter, listing_of};
use crate::selection::{
    choose_multiple, first_folder, first_folder_from, image_candidates, image_candidates_of,
    is_picked_at, is_sample_of,
};
use crate::text::{option_string, strings, texts};
use scraper::Html;
use vstd::prelude::*;

verus! {

/// The query that asks the server for the newest entries first.
pub open spec fn newest_first() -> Seq<char> {
    "?C=M;O=D"@
}

/// The number of bytes of a response that are kept.
pub const MAX_RESPONSE_BYTES: usize = 40962;

/// The longest pause, in seconds, after which another attempt is made.
pub const LONGEST_COOLDOWN: u64 = 3600;

/// Why no folder or no image could be chosen.
#[derive(Clone, Copy, Debug, PartialEq, Eq)]
pub enum SelectionError {
    /// The page of folders is no listing.
    NoFolderListing,
    /// No entry of the listing stands for a folder.
    NoFolder,
    /// The address of the folder does not resolve.
    InvalidFolder,
    /// The page of images is no listing.
    NoImageListing,
    /// The address of an image does not resolve.
    InvalidImage,
    /// No image is there to be set.
    NoImage,
}

impl SelectionError {
    /// The text that tells a user what went wrong.
    pub open spec fn spec_message(self) -> Seq<char> {
        match self {
            SelectionError::NoFolderListing => "Can't parse grzyby.pl directory"@,
            SelectionError::NoFolder => "Cannot get the newest folder"@,
            SelectionError::InvalidFolder => "Invaild grzyby.pl folder"@,
            SelectionError::NoImageListing => "Can't parse grzyby.pl image directory"@,
            SelectionError::InvalidImage => "Invaild grzyby.pl image"@,
            SelectionError::NoImage => "No grzyby.pl image to set"@,
        }
    }

    /// The text that tells a user what went wrong.
    pub fn message(&self) -> (text: String)
        ensures
            text@ == self.spec_message(),
    {
        match self {
            SelectionError::NoFolderListing => "Can't parse grzyby.pl directory".to_owned(),
            SelectionError::NoFolder => "Cannot get the newest folder".to_owned(),
            SelectionError::InvalidFolder => "Invaild grzyby.pl folder".to_owned(),
            SelectionError::NoImageListing => "Can't parse grzyby.pl image directory".to_owned(),
            SelectionError::InvalidImage => "Invaild grzyby.pl image".to_owned(),
            SelectionError::NoImage => "No grzyby.pl image to set".to_owned(),
        }
    }
}

/// The address of the folder to descend into: the first folder of the
/// listing, resolved against the address of the page.
pub open spec fn image_folder_of(html: &Html, base: Seq<char>) -> Result<
    Seq<char>,
    SelectionError,
> {
    match listing_of(html) {
        None => Err(SelectionError::NoFolderListing),
        Some(entries) => match first_folder_from(entries, 0) {
            None => Err(SelectionError::NoFolder),
            Some(href) => match joined_url(base, href) {
                Some(address) => Ok(address),
                None => Err(SelectionError::InvalidFolder),
            },
        },
    }
}

/// The addresses of images once chosen: each resolved against the address
/// of the folder, or a failure where one of them does not resolve.
pub open spec fn resolved_images(folder: Seq<char>, chosen: Seq<Seq<char>>) -> Result<
    Seq<Seq<char>>,
    SelectionError,
> {
    if all_join(folder, chosen) {
        Ok(joined_all(folder, chosen))
    } else {
        Err(SelectionError::InvalidImage)
    }
}

/// The characters of the addresses of an outcome.
pub open spec fn outcome_of(outcome: Result<Vec<String>, SelectionError>) -> Result<
    Seq<Seq<char>>,
    SelectionError,
> {
    match outcome {
        Ok(addresses) => Ok(strings(addresses@)),
        Err(error) => Err(error),
    }
}

/// `outcome` is a selection of `amount` images from the page of a folder:
/// a failure where the page is no listing; otherwise what some sample of
/// the images to choose from resolves to.
pub open spec fn is_image_selection(
    html: &Html,
    folder: Seq<char>,
    amount: nat,
    outcome: Result<Seq<Seq<char>>, SelectionError>,
) -> bool {
    match listing_of(html) {
        None => outcome == Err::<Seq<Seq<char>>, SelectionError>(SelectionError::NoImageListing),
        Some(entries) => exists|chosen: Seq<Seq<char>>|
            is_sample_of(chosen, image_candidates_of(entries), amount) && outcome
                == #[trigger] resolved_images(folder, chosen),
    }
}

/// What a buffer holds once a chunk has come in: the buffer and as much of
/// the chunk as fits below the limit.
pub open spec fn capped(buffer: Seq<u8>, chunk: Seq<u8>) -> Seq<u8> {
    if buffer.len() >= MAX_RESPONSE_BYTES {
        buffer
    } else if buffer.len() + chunk.len() <= MAX_RESPONSE_BYTES {
        buffer + chunk
    } else {
        buffer + chunk.take(MAX_RESPONSE_BYTES - buffer.len())
    }
}

/// A sample of texts is a sample of their characters.
proof fn lemma_sample_of_texts(chosen: Seq<&str>, items: Seq<&str>, amount: nat)
    requires
        is_sample_of(chosen, items, amount),
    ensures
        is_sample_of(texts(chosen), texts(items), amount),
{
    let picks = choose|picks: Seq<int>| is_picked_at(chosen, items, picks);
    assert(is_picked_at(texts(chosen), texts(items), picks));
}

/// The address under which a page lists its newest entries first.
pub fn listing_address(page: &str) -> (address: Option<String>)
    ensures
        option_string(address) == joined_url(page@, newest_first()),
{
    join_url(page, "?C=M;O=D")
}

/// Chooses the folder to descend into from the page of folders.
///
/// It is the first entry of the listing that has a link and a date and
/// whose link text is a plain name; its address is the `href` of the link,
/// resolved against the address of the page.
pub fn select_image_folder(html: &Html, page: &str) -> (folder: Result<String, SelectionError>)
    ensures
        match folder {
            Ok(address) => image_folder_of(html, page@) == Ok::<Seq<char>, SelectionError>(
                address@,
            ),
            Err(error) => image_folder_of(html, page@) == Err::<Seq<char>, SelectionError>(error),
        },
{
    let entries = match apache_grzyby_index_iter(html) {
        Some(entries) => entries,
        None => {
            return Err(SelectionError::NoFolderListing);
        },
    };
    let href = match first_folder(entries.as_slice()) {
        Some(href) => href,
        None => {
            return Err(SelectionError::NoFolder);
        },
    };
    match join_url(page, href) {
        Some(address) => Ok(address),
        None => Err(SelectionError::InvalidFolder),
    }
}

/// Resolves the images that were chosen against the address of their
/// folder.
pub fn resolve_images(folder: &str, chosen: &[&str]) -> (images: Result<
    Vec<String>,
    SelectionError,
>)
    ensures
        outcome_of(images) == resolved_images(folder@, texts(chosen@)),
{
    match join_all(folder, chosen) {
        Some(addresses) => Ok(addresses),
        None => Err(SelectionError::InvalidImage),
    }
}

/// Chooses `amount` images from the page of a folder, at random.
///
/// The images to choose from are the entries whose link leads to an image.
/// Only the final row of the listing is left out. Where there are fewer
/// images than `amount`, all of them are chosen.
pub fn select_images(html: &Html, folder: &str, amount: usize) -> (images: Result<
    Vec<String>,
    SelectionError,
>)
    ensures
        is_image_selection(html, folder@, amount as nat, outcome_of(images)),
{
    let entries = match apache_grzyby_index_iter(html) {
        Some(entries) => entries,
        None => {
            return Err(SelectionError::NoImageListing);
        },
    };
    let candidates = image_candidates(entries.as_slice());
    let chosen = choose_multiple(candidates.as_slice(), amount);
    proof {
        lemma_sample_of_texts(chosen@, candidates@, amount as nat);
    }
    resolve_images(folder, chosen.as_slice())
}

/// The wallpaper for every screen that gets none of its own: the first of
/// the files that were fetched. Without a file there is nothing to set.
pub fn default_wallpaper<T>(files: &[T]) -> (first: Result<&T, SelectionError>)
    ensures
        match first {
            Ok(file) => files@.len() > 0 && *file == files@[0],
            Err(error) => files@.len() == 0 && error == SelectionError::NoImage,
        },
{
    if files.len() > 0 {
        Ok(&files[0])
    } else {
        Err(SelectionError::NoImage)
    }
}

/// Takes a chunk of a response into the buffer, as far as the buffer has
/// room below the limit, and tells whether the buffer is full.
pub fn append_capped(buffer: &mut Vec<u8>, chunk: &[u8]) -> (full: bool)
    ensures
        final(buffer)@ == capped(old(buffer)@, chunk@),
        full == (final(buffer)@.len() >= MAX_RESPONSE_BYTES),
{
    let ghost before = buffer@;
    let mut i: usize = 0;
    while i < chunk.len() && buffer.len() < MAX_RESPONSE_BYTES
        invariant
            i <= chunk@.len(),
            buffer@ == before + chunk@.take(i as int),
            i > 0 ==> before.len() + i <= MAX_RESPONSE_BYTES,
        decreases chunk@.len() - i,
    {
        buffer.push(chunk[i]);
        assert(chunk@.take(i + 1) =~= chunk@.take(i as int).push(chunk@[i as int]));
        assert(buffer@ =~= before + chunk@.take(i + 1));
        i += 1;
    }
    assert(before + chunk@.take(0) =~= before);
    assert(chunk@.take(chunk@.len() as int) =~= chunk@);
    buffer.len() >= MAX_RESPONSE_BYTES
}

/// Decides what follows a failed attempt that was made under a pause of
/// `cooldown` seconds: nothing more where the pause has grown beyond the
/// longest one; otherwise another attempt after that pause, under a pause
/// twice as long, which is the result.
pub fn retry_after(cooldown: u64) -> (next: Option<u64>)
    ensures
        next == if cooldown > LONGEST_COOLDOWN {
            None
        } else {
            Some((2 * cooldown) as u64)
        },
{
    if cooldown > LONGEST_COOLDOWN {
        None
    } else {
        Some(2 * cooldown)
    }
}

} // verus!
