//! Routing identity of a call, read from the path it was addressed to.
//!
//! A path is a separator, a service name and, after a second separator, a
//! method name: `/service/method`. Nothing is normalised: case and further
//! separators are kept as they are.

use crate::info::Info;
use vstd::prelude::*;
use vstd::std_specs::iter::IteratorSpec;

verus! {

/// The character that opens a path and parts service from method.
pub const PATH_SEPARATOR: char = '/';

/// The character that parts the segments of a qualified service name.
pub const NAME_SEPARATOR: char = '.';

/// Why a path names no call.
#[derive(Debug, Clone, Copy, PartialEq, Eq, Structural)]
pub enum PathError {
    /// The path is empty or does not begin with the separator.
    MissingSeparator,
    /// Nothing follows the leading separator.
    EmptyPath,
}

/// Number of leading characters of `s` that differ from `c`: the index of
/// the first `c`, or the length of `s` when it holds none.
pub open spec fn lead_len(s: Seq<char>, c: char) -> nat
    decreases s.len(),
{
    if s.len() == 0 || s[0] == c {
        0
    } else {
        1 + lead_len(s.drop_first(), c)
    }
}

/// Number of trailing characters of `s` that differ from `c`: what follows
/// the last `c`, or the length of `s` when it holds none.
pub open spec fn tail_len(s: Seq<char>, c: char) -> nat
    decreases s.len(),
{
    if s.len() == 0 || s.last() == c {
        0
    } else {
        1 + tail_len(s.drop_last(), c)
    }
}

/// A path addresses a call when it is the separator followed by at least
/// one more character.
pub open spec fn is_addressed(path: Seq<char>) -> bool {
    path.len() >= 2 && path[0] == PATH_SEPARATOR
}

/// Why `path` names no call, if it names none.
pub open spec fn path_fault(path: Seq<char>) -> Option<PathError> {
    if path.len() == 0 || path[0] != PATH_SEPARATOR {
        Some(PathError::MissingSeparator)
    } else if path.len() == 1 {
        Some(PathError::EmptyPath)
    } else {
        None
    }
}

/// The service that `path` names: what stands between the leading
/// separator and the next one, or the end of the path.
pub open spec fn service_of(path: Seq<char>) -> Seq<char> {
    let rest = path.drop_first();
    rest.take(lead_len(rest, PATH_SEPARATOR) as int)
}

/// The method that `path` names: all that follows the second separator,
/// and nothing where the path has no second separator.
pub open spec fn method_of(path: Seq<char>) -> Seq<char> {
    let rest = path.drop_first();
    let at = lead_len(rest, PATH_SEPARATOR);
    if at < rest.len() {
        rest.skip(at as int + 1)
    } else {
        Seq::empty()
    }
}

/// The last segment of a dotted name: what follows the last name separator,
/// and the whole name where it holds none.
pub open spec fn simple_name(name: Seq<char>) -> Seq<char> {
    name.skip(name.len() - tail_len(name, NAME_SEPARATOR))
}

/// `lead_len(s, c)` is the one index `at` within `0..=s.len()` before which
/// no `c` stands and at which `s` either ends or holds `c`.
pub proof fn lemma_lead_len(s: Seq<char>, c: char, at: int)
    ensures
        (0 <= at <= s.len() && (at < s.len() ==> s[at] == c) && forall|j: int|
            0 <= j < at ==> s[j] != c) <==> at == lead_len(s, c),
    decreases s.len(),
{
    if s.len() == 0 || s[0] == c {
    } else {
        let rest = s.drop_first();
        lemma_lead_len(rest, c, at - 1);
        if at == lead_len(s, c) {
            assert forall|j: int| 0 <= j < at implies s[j] != c by {
                if j > 0 {
                    assert(s[j] == rest[j - 1]);
                }
            }
        }
        if 0 <= at <= s.len() && (at < s.len() ==> s[at] == c) && forall|j: int|
            0 <= j < at ==> s[j] != c {
            assert(at >= 1) by {
                if at == 0 {
                    assert(s[at] == c);
                }
            }
            assert forall|j: int| 0 <= j < at - 1 implies rest[j] != c by {
                assert(rest[j] == s[j + 1]);
            }
        }
    }
}

/// `tail_len(s, c)` is the one count `k` within `0..=s.len()` such that none
/// of the last `k` characters is `c` and the character before them, where
/// there is one, is `c`.
pub proof fn lemma_tail_len(s: Seq<char>, c: char, k: int)
    ensures
        (0 <= k <= s.len() && (k < s.len() ==> s[s.len() - k - 1] == c) && forall|j: int|
            s.len() - k <= j < s.len() ==> s[j] != c) <==> k == tail_len(s, c),
    decreases s.len(),
{
    if s.len() == 0 || s.last() == c {
        if 0 < k <= s.len() && forall|j: int| s.len() - k <= j < s.len() ==> s[j] != c {
            assert(s[s.len() - 1] != c);
        }
    } else {
        let rest = s.drop_last();
        lemma_tail_len(rest, c, k - 1);
        if k == tail_len(s, c) {
            assert forall|j: int| s.len() - k <= j < s.len() implies s[j] != c by {
                if j < s.len() - 1 {
                    assert(s[j] == rest[j]);
                }
            }
        }
        if 0 <= k <= s.len() && (k < s.len() ==> s[s.len() - k - 1] == c) && forall|j: int|
            s.len() - k <= j < s.len() ==> s[j] != c {
            assert(k >= 1);
            assert forall|j: int| rest.len() - (k - 1) <= j < rest.len() implies rest[j] != c by {
                assert(rest[j] == s[j]);
            }
        }
    }
}

/// A path names a call exactly when nothing is at fault with it.
pub proof fn lemma_addressed_or_at_fault(path: Seq<char>)
    ensures
        is_addressed(path) <==> path_fault(path) is None,
        path_fault(path) == Some(PathError::EmptyPath) <==> path == seq![PATH_SEPARATOR],
{
    if path.len() == 1 && path[0] == PATH_SEPARATOR {
        assert(path =~= seq![PATH_SEPARATOR]);
    }
}

/// A path built from a service name without separator, a separator and a
/// method name parses back into that service and that method.
pub proof fn lemma_service_and_method(service: Seq<char>, method: Seq<char>)
    requires
        !service.contains(PATH_SEPARATOR),
    ensures
        is_addressed(seq![PATH_SEPARATOR] + service + seq![PATH_SEPARATOR] + method),
        service_of(seq![PATH_SEPARATOR] + service + seq![PATH_SEPARATOR] + method) == service,
        method_of(seq![PATH_SEPARATOR] + service + seq![PATH_SEPARATOR] + method) == method,
{
    let path = seq![PATH_SEPARATOR] + service + seq![PATH_SEPARATOR] + method;
    let rest = path.drop_first();
    assert(rest =~= service + seq![PATH_SEPARATOR] + method);
    assert forall|j: int| 0 <= j < service.len() implies rest[j] != PATH_SEPARATOR by {
        assert(rest[j] == service[j]);
    }
    lemma_lead_len(rest, PATH_SEPARATOR, service.len() as int);
    assert(rest.take(service.len() as int) =~= service);
    assert(rest.skip(service.len() as int + 1) =~= method);
}

/// A path of a separator and a service name, with no second separator,
/// names that service and an empty method.
pub proof fn lemma_service_only(service: Seq<char>)
    requires
        service.len() > 0,
        !service.contains(PATH_SEPARATOR),
    ensures
        is_addressed(seq![PATH_SEPARATOR] + service),
        service_of(seq![PATH_SEPARATOR] + service) == service,
        method_of(seq![PATH_SEPARATOR] + service) == Seq::<char>::empty(),
{
    let path = seq![PATH_SEPARATOR] + service;
    let rest = path.drop_first();
    assert(rest =~= service);
    lemma_lead_len(rest, PATH_SEPARATOR, service.len() as int);
    assert(rest.take(service.len() as int) =~= service);
}

/// The identity read from a path holds the whole path: the service name has
/// no separator in it, and the path is the separator and the service name,
/// followed, where it has a second separator, by that separator and the
/// method name.
pub proof fn lemma_identity_covers_path(path: Seq<char>)
    requires
        path.len() > 0,
        path[0] == PATH_SEPARATOR,
    ensures
        !service_of(path).contains(PATH_SEPARATOR),
        path == seq![PATH_SEPARATOR] + service_of(path) || path == seq![PATH_SEPARATOR]
            + service_of(path) + seq![PATH_SEPARATOR] + method_of(path),
{
    let rest = path.drop_first();
    let at = lead_len(rest, PATH_SEPARATOR) as int;
    lemma_lead_len(rest, PATH_SEPARATOR, at);
    let service = service_of(path);
    assert forall|j: int| 0 <= j < service.len() implies service[j] != PATH_SEPARATOR by {
        assert(service[j] == rest[j]);
    }
    if at < rest.len() {
        assert(path =~= seq![PATH_SEPARATOR] + service + seq![PATH_SEPARATOR] + method_of(path));
    } else {
        assert(path =~= seq![PATH_SEPARATOR] + service);
    }
}

/// The simple name of a dotted name is its last segment.
pub proof fn lemma_simple_name_of_qualified(package: Seq<char>, name: Seq<char>)
    requires
        !name.contains(NAME_SEPARATOR),
    ensures
        simple_name(package + seq![NAME_SEPARATOR] + name) == name,
        simple_name(name) == name,
{
    let full = package + seq![NAME_SEPARATOR] + name;
    assert forall|j: int| full.len() - name.len() <= j < full.len() implies full[j]
        != NAME_SEPARATOR by {
        assert(full[j] == name[j - package.len() - 1]);
    }
    lemma_tail_len(full, NAME_SEPARATOR, name.len() as int);
    assert(full.skip(full.len() - name.len()) =~= name);
    lemma_tail_len(name, NAME_SEPARATOR, name.len() as int);
    assert(name.skip(0) =~= name);
}

/// Index of the first `c` in `s`, or the length of `s` in characters.
fn find_first(s: &str, c: char) -> (at: usize)
    ensures
        at == lead_len(s@, c),
        at <= s@.len(),
{
    broadcast use vstd::string::group_string_axioms;

    let n = s.unicode_len();
    let mut chars = s.chars();
    let mut i: usize = 0;
    let mut at = n;
    while i < n && at == n
        invariant
            n == s@.len(),
            i <= n,
            chars.obeys_prophetic_iter_laws(),
            at == n ==> chars.remaining() == s@.skip(i as int),
            forall|j: int| 0 <= j < i ==> s@[j] != c,
            at == n || (at < n && at == i && s@[at as int] == c),
        decreases n - i + if at == n { 1int } else { 0int },
    {
        match chars.next() {
            Some(x) => {
                proof {
                    assert(s@.skip(i as int)[0] == s@[i as int]);
                    assert(s@.skip(i as int).drop_first() =~= s@.skip(i + 1));
                }
                if x == c {
                    at = i;
                } else {
                    i = i + 1;
                }
            },
            None => {
                assert(false);
            },
        }
    }
    proof {
        lemma_lead_len(s@, c, at as int);
    }
    at
}

/// Index just behind the last `c` in `s`, or `0` where `s` holds none.
fn find_after_last(s: &str, c: char) -> (start: usize)
    ensures
        start == s@.len() - tail_len(s@, c),
        start <= s@.len(),
{
    broadcast use vstd::string::group_string_axioms;

    let n = s.unicode_len();
    let mut chars = s.chars();
    let mut i: usize = 0;
    let mut start: usize = 0;
    while i < n
        invariant
            n == s@.len(),
            start <= i <= n,
            chars.obeys_prophetic_iter_laws(),
            chars.remaining() == s@.skip(i as int),
            forall|j: int| start <= j < i ==> s@[j] != c,
            start > 0 ==> s@[start - 1] == c,
        decreases n - i,
    {
        match chars.next() {
            Some(x) => {
                proof {
                    assert(s@.skip(i as int)[0] == s@[i as int]);
                    assert(s@.skip(i as int).drop_first() =~= s@.skip(i + 1));
                }
                i = i + 1;
                if x == c {
                    start = i;
                }
            },
            None => {
                assert(false);
            },
        }
    }
    proof {
        lemma_tail_len(s@, c, n - start);
    }
    start
}

/// Reads the routing identity from the path of a call.
///
/// The service is what stands between the leading separator and the next
/// one; the method is all that follows that second separator, further
/// separators included, and is empty where there is none.
pub fn parse_path(path: String) -> (info: Info)
    requires
        is_addressed(path@),
    ensures
        info.service@ == service_of(path@),
        info.method@ == method_of(path@),
{
    let whole = path.as_str();
    let n = whole.unicode_len();
    let rest = whole.substring_char(1, n);
    assert(rest@ =~= path@.drop_first());
    let m = n - 1;
    let at = find_first(rest, PATH_SEPARATOR);
    let service = rest.substring_char(0, at);
    assert(service@ =~= rest@.take(at as int));
    if at < m {
        let method = rest.substring_char(at + 1, m);
        assert(method@ =~= rest@.skip(at + 1));
        Info { service: service.to_owned(), method: method.to_owned() }
    } else {
        Info { service: service.to_owned(), method: String::new() }
    }
}

/// Reads the routing identity from a path, or says why the path names no
/// call: it must begin with the separator, and something must follow it.
pub fn parse_path_checked(path: String) -> (parsed: Result<Info, PathError>)
    ensures
        match parsed {
            Ok(info) => is_addressed(path@) && info.service@ == service_of(path@) && info.method@
                == method_of(path@),
            Err(fault) => path_fault(path@) == Some(fault),
        },
{
    let n = path.as_str().unicode_len();
    if n == 0 || path.as_str().get_char(0) != PATH_SEPARATOR {
        Err(PathError::MissingSeparator)
    } else if n == 1 {
        Err(PathError::EmptyPath)
    } else {
        Ok(parse_path(path))
    }
}

/// The last segment of a dotted service name: `pkg.sub.Service` gives
/// `Service`, and a name without a dot is returned whole.
pub fn to_simple_service_name(name: &str) -> (simple: &str)
    ensures
        simple@ == simple_name(name@),
{
    let n = name.unicode_len();
    let start = find_after_last(name, NAME_SEPARATOR);
    name.substring_char(start, n)
}

} // verus!
