//! Addresses: resolving the `href` of a link against the address of the
//! page that holds it, and the file name that an address ends in.

use crate::text::{chars_of, last_index_of, option_string, strings, texts};
use url::Url;
use vstd::prelude::*;
use vstd::string::StrSliceExecFns;

verus! {

/// The address that a reference resolves to against a base address, as the
/// `url` crate joins the two, if it can.
pub uninterp spec fn joined_url(base: Seq<char>, reference: Seq<char>) -> Option<Seq<char>>;

/// Every reference resolves against the base.
pub open spec fn all_join(base: Seq<char>, references: Seq<Seq<char>>) -> bool {
    forall|i: int|
        0 <= i < references.len() ==> joined_url(base, #[trigger] references[i]) is Some
}

/// The addresses that the references resolve to, one by one.
pub open spec fn joined_all(base: Seq<char>, references: Seq<Seq<char>>) -> Seq<Seq<char>> {
    Seq::new(references.len(), |i: int| joined_url(base, references[i])->0)
}

/// What follows the last slash of an address, or all of it where it holds
/// no slash.
pub open spec fn file_name(address: Seq<char>) -> Seq<char> {
    address.skip(last_index_of(address, '/', address.len() as int) + 1)
}

/// Calls `Url::parse` on the base and `Url::join` on the outcome, with the
/// reference, and hands back the text of the address that comes out.
///
/// Trusted: the outcome depends on the two texts alone.
#[verifier::external_body]
pub(crate) fn join_url(base: &str, reference: &str) -> (joined: Option<String>)
    ensures
        option_string(joined) == joined_url(base@, reference@),
{
    Url::parse(base).ok()?.join(reference).ok().map(String::from)
}

/// Resolves every reference against the base. One that does not resolve
/// makes the whole fail.
pub fn join_all(base: &str, references: &[&str]) -> (joined: Option<Vec<String>>)
    ensures
        match joined {
            Some(addresses) => all_join(base@, texts(references@)) && strings(addresses@)
                == joined_all(base@, texts(references@)),
            None => !all_join(base@, texts(references@)),
        },
{
    let ghost wanted = texts(references@);
    let mut addresses: Vec<String> = Vec::new();
    let mut i: usize = 0;
    while i < references.len()
        invariant
            i <= references@.len(),
            wanted == texts(references@),
            addresses@.len() == i,
            forall|k: int| 0 <= k < i ==> joined_url(base@, #[trigger] wanted[k]) == Some(addresses@[k]@),
        decreases references@.len() - i,
    {
        assert(wanted[i as int] == references@[i as int]@);
        match join_url(base, references[i]) {
            Some(address) => {
                addresses.push(address);
            },
            None => {
                return None;
            },
        }
        i += 1;
    }
    assert(strings(addresses@) =~= joined_all(base@, wanted));
    Some(addresses)
}

/// The file name that an address ends in.
pub fn file_name_of<'a>(address: &'a str) -> (name: &'a str)
    ensures
        name@ == file_name(address@),
{
    let chars = chars_of(address);
    let len = chars.len();
    let mut n: usize = len;
    while n > 0 && chars[n - 1] != '/'
        invariant
            n <= len,
            len == chars@.len(),
            last_index_of(chars@, '/', n as int) == last_index_of(chars@, '/', len as int),
        decreases n,
    {
        n -= 1;
    }
    assert(address@.subrange(n as int, len as int) =~= address@.skip(n as int));
    address.substring_char(n, len)
}

} // verus!
