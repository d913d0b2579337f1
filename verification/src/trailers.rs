//! The trailers of two bodies, put together.

use http::header::MaxSizeReached;
use http::{HeaderMap, HeaderName, HeaderValue};
use std::collections::VecDeque;
use vstd::prelude::*;

verus! {

/// [`HeaderMap`] is a multimap from header names to header values.
#[verifier::external_type_specification]
#[verifier::external_body]
#[verifier::reject_recursive_types(T)]
pub struct ExHeaderMap<T>(http::HeaderMap<T>);

/// [`HeaderName`] is the type of the names in a [`HeaderMap`].
#[verifier::external_type_specification]
#[verifier::external_body]
pub struct ExHeaderName(http::HeaderName);

/// [`HeaderValue`] is the type of the values in a [`HeaderMap`].
#[verifier::external_type_specification]
#[verifier::external_body]
pub struct ExHeaderValue(http::HeaderValue);

/// [`MaxSizeReached`] is the error of a [`HeaderMap`] that cannot take in a header.
#[verifier::external_type_specification]
#[verifier::external_body]
pub struct ExMaxSizeReached(http::header::MaxSizeReached);

/// How many names a map may hold so that it is sure to take in one header more.
///
/// A [`HeaderMap`] has at most 32768 slots. It refuses to take in a header where it cannot double
/// its slots. It may come to that, if many of its names collide, as soon as its names fill a fifth
/// of the slots; with fewer names it never does.
pub const MAX_MERGED_NAMES: usize = 6553;

/// What a [`HeaderValue`] holds: its bytes, and whether it is marked as sensitive.
pub type Value = (Seq<u8>, bool);

/// Names, in lower case, each with its values in the order in which they were added.
pub type Entries = Map<Seq<char>, Seq<Value>>;

/// The text of a [`HeaderName`], in lower case.
pub uninterp spec fn header_name(name: http::HeaderName) -> Seq<char>;

/// What a [`HeaderValue`] holds.
pub uninterp spec fn header_value(value: http::HeaderValue) -> (Seq<u8>, bool);

/// What a [`HeaderMap`] holds.
pub uninterp spec fn header_entries(map: http::HeaderMap) -> Map<
    Seq<char>,
    Seq<(Seq<u8>, bool)>,
>;

/// [`HeaderMap::keys_len`] counts the names in a map.
#[verifier::external_body]
fn name_count(map: &HeaderMap) -> (n: usize)
    ensures
        counts(header_entries(*map), n as nat),
{
    map.keys_len()
}

/// [`HeaderMap`]'s `extend` with another map: for each name of `other`, the values of `other` take
/// the place of those that `map` has under it, and all other names keep their values.
#[verifier::external_body]
fn extend(map: &mut HeaderMap, other: HeaderMap)
    requires
        header_entries(*old(map)).len() + header_entries(other).len() <= MAX_MERGED_NAMES,
    ensures
        header_entries(*final(map)) == header_entries(*old(map)).union_prefer_right(
            header_entries(other),
        ),
{
    map.extend(other);
}

/// [`HeaderMap`]'s `into_iter` hands out the headers of a map: of each name, in any order, first
/// the name with its first value, and then its other values without the name.
#[verifier::external_body]
fn headers(map: HeaderMap) -> (headers: VecDeque<(Option<HeaderName>, HeaderValue)>)
    ensures
        headers@.len() > 0 ==> headers@[0].0 is Some,
        added(Map::empty(), headers@) == header_entries(map),
{
    map.into_iter().collect()
}

/// [`HeaderMap::try_insert`] puts a value in place of those that the map has under the name, the
/// first of which it returns. A map that refuses stays as it is, and holds many names.
#[verifier::external_body]
fn try_insert(map: &mut HeaderMap, name: &HeaderName, value: HeaderValue) -> (out: Result<
    Option<HeaderValue>,
    MaxSizeReached,
>)
    ensures
        match out {
            Ok(previous) => {
                &&& header_entries(*final(map)) == header_entries(*old(map)).insert(
                    header_name(*name),
                    seq![header_value(value)],
                )
                &&& match previous {
                    Some(first) => {
                        &&& header_entries(*old(map)).contains_key(header_name(*name))
                        &&& header_value(first) == header_entries(*old(map))[header_name(*name)][0]
                    },
                    None => !header_entries(*old(map)).contains_key(header_name(*name)),
                }
            },
            Err(_) => {
                &&& header_entries(*final(map)) == header_entries(*old(map))
                &&& header_entries(*old(map)).len() > MAX_MERGED_NAMES
            },
        },
{
    map.try_insert(name, value)
}

/// [`HeaderMap::try_append`] adds a value to those that the map has under the name, and says
/// whether there were any. A map that refuses stays as it is, and holds many names.
#[verifier::external_body]
fn try_append(map: &mut HeaderMap, name: &HeaderName, value: HeaderValue) -> (out: Result<
    bool,
    MaxSizeReached,
>)
    ensures
        match out {
            Ok(present) => {
                &&& present <==> header_entries(*old(map)).contains_key(header_name(*name))
                &&& header_entries(*final(map)) == header_entries(*old(map)).insert(
                    header_name(*name),
                    if present {
                        header_entries(*old(map))[header_name(*name)].push(header_value(value))
                    } else {
                        seq![header_value(value)]
                    },
                )
            },
            Err(_) => {
                &&& header_entries(*final(map)) == header_entries(*old(map))
                &&& header_entries(*old(map)).len() > MAX_MERGED_NAMES
            },
        },
{
    map.try_append(name, value)
}

/// Whether there are `n` names, and so finitely many.
pub open spec fn counts(entries: Entries, n: nat) -> bool {
    &&& entries.dom().finite()
    &&& entries.len() == n
}

/// The last name in a list of headers.
pub open spec fn last_name(headers: Seq<(Option<HeaderName>, HeaderValue)>) -> Seq<char>
    decreases headers.len(),
{
    if headers.len() == 0 {
        seq![]
    } else {
        match headers.last().0 {
            Some(name) => header_name(name),
            None => last_name(headers.drop_last()),
        }
    }
}

/// Entries with a list of headers added: a header with a name takes the place of the values under
/// that name, and one without adds to the values under the last name before it.
pub open spec fn added(
    entries: Entries,
    headers: Seq<(Option<HeaderName>, HeaderValue)>,
) -> Entries
    decreases headers.len(),
{
    if headers.len() == 0 {
        entries
    } else {
        let before = added(entries, headers.drop_last());
        let name = last_name(headers);
        let value = header_value(headers.last().1);
        match headers.last().0 {
            Some(_) => before.insert(name, seq![value]),
            None => before.insert(name, before[name].push(value)),
        }
    }
}

/// The headers of a list take precedence over the entries that they are added to.
proof fn added_headers_take_precedence(
    entries: Entries,
    headers: Seq<(Option<HeaderName>, HeaderValue)>,
)
    requires
        headers.len() > 0 ==> headers[0].0 is Some,
    ensures
        added(entries, headers) == entries.union_prefer_right(added(Map::empty(), headers)),
        headers.len() > 0 ==> added(Map::empty(), headers).contains_key(last_name(headers)),
    decreases headers.len(),
{
    let alone = added(Map::empty(), headers);
    if headers.len() == 0 {
        assert(added(entries, headers) =~= entries.union_prefer_right(alone));
    } else {
        added_headers_take_precedence(entries, headers.drop_last());
        assert(added(entries, headers) =~= entries.union_prefer_right(alone));
    }
}

/// The names of the first few headers are among those of all.
proof fn added_names_grow(
    entries: Entries,
    headers: Seq<(Option<HeaderName>, HeaderValue)>,
    i: int,
)
    requires
        0 <= i <= headers.len(),
    ensures
        added(entries, headers.take(i)).dom().subset_of(added(entries, headers).dom()),
    decreases headers.len() - i,
{
    if i < headers.len() {
        added_names_grow(entries, headers, i + 1);
        assert(headers.take(i + 1).drop_last() =~= headers.take(i));
    } else {
        assert(headers.take(i) =~= headers);
    }
}

/// Trailers that have too many names to be merged.
#[derive(Debug)]
pub struct Oversized;

/// Whether `first` and `second` have few enough names to be sure that they can be merged, those
/// that both have counted once.
pub open spec fn mergeable(first: HeaderMap, second: HeaderMap) -> bool {
    header_entries(first).union_prefer_right(header_entries(second)).len() <= MAX_MERGED_NAMES
}

/// Whether `out` is what the trailers of two bodies come to, the second one's taking precedence.
pub open spec fn merges(
    first: Option<HeaderMap>,
    second: Option<HeaderMap>,
    out: Result<Option<HeaderMap>, Oversized>,
) -> bool {
    match (first, second) {
        (Some(a), Some(b)) => match out {
            Ok(Some(map)) => header_entries(map) == header_entries(a).union_prefer_right(
                header_entries(b),
            ),
            Ok(None) => false,
            Err(_) => !mergeable(a, b),
        },
        (Some(map), None) => out == Ok::<Option<HeaderMap>, Oversized>(Some(map)),
        (None, Some(map)) => out == Ok::<Option<HeaderMap>, Oversized>(Some(map)),
        (None, None) => out == Ok::<Option<HeaderMap>, Oversized>(None),
    }
}

/// Adds the headers of one map to another one, unless that refuses a header.
fn add_each(map: &mut HeaderMap, other: HeaderMap) -> (out: Result<(), Oversized>)
    requires
        header_entries(*old(map)).dom().finite(),
        header_entries(other).dom().finite(),
    ensures
        match out {
            Ok(_) => header_entries(*final(map)) == header_entries(*old(map)).union_prefer_right(
                header_entries(other),
            ),
            Err(_) => !mergeable(*old(map), other),
        },
{
    let mut rest = headers(other);
    let ghost all = rest@;
    let ghost entries = header_entries(*map);
    let ghost mut i: int = 0;
    proof {
        added_headers_take_precedence(entries, all);
        assert(all.take(0) =~= seq![]);
        assert(entries.union_prefer_right(header_entries(other)).dom() =~= entries.dom().union(
            header_entries(other).dom(),
        ));
    }
    let mut name: Option<HeaderName> = None;
    while rest.len() > 0
        invariant
            entries == header_entries(*old(map)),
            added(entries, all) == entries.union_prefer_right(header_entries(other)),
            added(entries, all).dom().finite(),
            all.len() > 0 ==> all[0].0 is Some,
            0 <= i <= all.len(),
            rest@ == all.skip(i),
            header_entries(*map) == added(entries, all.take(i)),
            match name {
                Some(name) => {
                    &&& header_name(name) == last_name(all.take(i))
                    &&& header_entries(*map).contains_key(header_name(name))
                },
                None => i == 0,
            },
        decreases rest@.len(),
    {
        if let Some((next, value)) = rest.pop_front() {
            proof {
                assert(all.take(i + 1).drop_last() =~= all.take(i));
                added_names_grow(entries, all, i);
                vstd::set_lib::lemma_len_subset(
                    added(entries, all.take(i)).dom(),
                    added(entries, all).dom(),
                );
                assert(all.skip(i).skip(1) =~= all.skip(i + 1));
                i = i + 1;
            }
            let refused = match next {
                Some(next) => {
                    let refused = try_insert(map, &next, value).is_err();
                    name = Some(next);
                    refused
                },
                None => match &name {
                    Some(name) => try_append(map, name, value).is_err(),
                    None => false,
                },
            };
            if refused {
                return Err(Oversized);
            }
        }
    }
    assert(all.take(i) =~= all);
    Ok(())
}

/// Merges the trailers of two bodies, either of which may have none.
///
/// Where both bodies have values for a name, those of the second one are kept. Trailers with few
/// names can always be merged; those with many can unless a [`HeaderMap`] refuses to hold them.
pub fn merge_trailers(first: Option<HeaderMap>, second: Option<HeaderMap>) -> (out: Result<
    Option<HeaderMap>,
    Oversized,
>)
    ensures
        merges(first, second, out),
{
    match (first, second) {
        (Some(mut a), Some(b)) => {
            let n: usize = name_count(&a);
            let m: usize = name_count(&b);
            if n <= MAX_MERGED_NAMES && m <= MAX_MERGED_NAMES - n {
                extend(&mut a, b);
                return Ok(Some(a));
            }
            // With so many names `extend` might have to refuse one, which it does by a panic.
            match add_each(&mut a, b) {
                Ok(_) => Ok(Some(a)),
                Err(oversized) => Err(oversized),
            }
        },
        (Some(map), None) => Ok(Some(map)),
        (None, Some(map)) => Ok(Some(map)),
        (None, None) => Ok(None),
    }
}

/// Merged trailers have the names of both bodies and no other; under each they have the values
/// of the second body where it has any, and those of the first body otherwise.
pub proof fn second_trailers_take_precedence(
    first: HeaderMap,
    second: HeaderMap,
    merged: HeaderMap,
    name: Seq<char>,
)
    requires
        merges(Some(first), Some(second), Ok(Some(merged))),
    ensures
        header_entries(merged).contains_key(name) <==> header_entries(first).contains_key(name)
            || header_entries(second).contains_key(name),
        header_entries(second).contains_key(name) ==> header_entries(merged)[name]
            == header_entries(second)[name],
        header_entries(first).contains_key(name) && !header_entries(second).contains_key(name)
            ==> header_entries(merged)[name] == header_entries(first)[name],
{
}

/// Trailers of one body alone are kept whatever they hold, and none come of none. Trailers of both
/// bodies come to a map with, under each name, the values of the second body where it has any, and
/// those of the first body otherwise; only if there are more than 6553 names may they be refused.
pub proof fn merged_trailers_lose_nothing(
    first: Option<HeaderMap>,
    second: Option<HeaderMap>,
    out: Result<Option<HeaderMap>, Oversized>,
)
    requires
        call_ensures(merge_trailers, (first, second), out) || merges(first, second, out),
    ensures
        first is None && second is None ==> (out matches Ok(merged) && merged is None),
        first is None && second is Some ==> (out matches Ok(Some(map)) && map == second->0),
        first is Some && second is None ==> (out matches Ok(Some(map)) && map == first->0),
        first is Some && second is Some ==> {
            let a = header_entries(first->0);
            let b = header_entries(second->0);
            match out {
                Ok(Some(map)) => forall|name: Seq<char>|
                    {
                        &&& #[trigger] header_entries(map).contains_key(name) <==> a.contains_key(
                            name,
                        ) || b.contains_key(name)
                        &&& b.contains_key(name) ==> header_entries(map)[name] == b[name]
                        &&& a.contains_key(name) && !b.contains_key(name)
                            ==> header_entries(map)[name] == a[name]
                    },
                Ok(None) => false,
                Err(_) => a.dom().union(b.dom()).len() > 6553,
            }
        },
{
    if let (Some(a), Some(b)) = (first, second) {
        assert(header_entries(a).union_prefer_right(header_entries(b)).dom() =~= header_entries(
            a,
        ).dom().union(header_entries(b).dom()));
    }
}

/// Any trailers can be given to be merged.
pub proof fn any_trailers_can_be_merged(first: Option<HeaderMap>, second: Option<HeaderMap>)
    ensures
        call_requires(merge_trailers, (first, second)),
{
}

} // verus!
