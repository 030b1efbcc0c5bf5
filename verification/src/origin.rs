//! The origin of an endpoint: its scheme, its host and, where the endpoint
//! names one that its scheme does not have anyway, its port. Path, query and
//! fragment are none of it. A VAPID token is valid for one origin, so the
//! origin is taken from the text of the endpoint itself and from nothing else.
//!
//! An endpoint is read as
//!
//! ```text
//! scheme "://" host [ ":" digits ] [ ( "/" | "?" | "#" ) rest ]
//! ```
//!
//! where the host is a name without `:`, or an address in square brackets.
//! An endpoint that does not read so, or whose host is empty, has no origin.

use vstd::prelude::*;
use vstd::string::*;

use crate::text::{alpha, chars_of, digit, is_alpha, is_digit};

verus! {

/// A character that a scheme may hold.
pub open spec fn is_scheme_char(c: char) -> bool {
    is_alpha(c) || is_digit(c) || c == '+' || c == '-' || c == '.'
}

/// A mark that a registered name may hold beside letters, digits, `-`, `.`,
/// `_`, `~` and `%`.
pub open spec fn is_sub_delimiter(c: char) -> bool {
    c == '!' || c == '$' || c == '&' || c == '\'' || c == '(' || c == ')' || c == '*' || c == '+'
        || c == ',' || c == ';' || c == '='
}

/// A character that a host may hold where it is spelled as a name. `:` is
/// none, since it ends the host, and `@` is none: an endpoint that names a
/// user before its host has no origin here.
pub open spec fn is_name_char(c: char) -> bool {
    is_alpha(c) || is_digit(c) || c == '-' || c == '.' || c == '_' || c == '~' || c == '%'
        || is_sub_delimiter(c)
}

/// A character that an address in square brackets may hold.
pub open spec fn is_literal_char(c: char) -> bool {
    is_alpha(c) || is_digit(c) || c == ':' || c == '.' || c == '%' || c == '-' || c == '_' || c
        == '~'
}

/// A character that ends the authority and begins the path, the query or the
/// fragment.
pub open spec fn ends_authority(c: char) -> bool {
    c == '/' || c == '?' || c == '#'
}

/// The three places at which an endpoint is cut: behind its scheme, behind
/// its host, and behind its port.
pub struct Split {
    /// The number of characters of the scheme, and so the place of its `:`.
    pub colon: int,
    /// Where the host ends.
    pub host_end: int,
    /// Where the authority ends: at the end of the host where no port is
    /// spelled, and behind the digits of the port else.
    pub end: int,
}

/// Whether the characters of `url` from `start` up to `host_end` spell a
/// host: an address in square brackets that is not empty, or a name that is
/// not empty.
pub open spec fn host_between(url: Seq<char>, start: int, host_end: int) -> bool {
    if url[start] == '[' {
        &&& start + 2 < host_end <= url.len()
        &&& url[host_end - 1] == ']'
        &&& forall|k: int| start < k < host_end - 1 ==> is_literal_char(#[trigger] url[k])
    } else {
        &&& 0 <= start < host_end <= url.len()
        &&& forall|k: int| start <= k < host_end ==> is_name_char(#[trigger] url[k])
    }
}

/// Whether `url` reads as scheme, `://`, host and port, cut at `split`.
pub open spec fn reads_as(url: Seq<char>, split: Split) -> bool {
    &&& 0 < split.colon
    &&& is_alpha(url[0])
    &&& forall|k: int| 0 <= k < split.colon ==> is_scheme_char(#[trigger] url[k])
    &&& split.colon + 3 < url.len()
    &&& url[split.colon] == ':'
    &&& url[split.colon + 1] == '/'
    &&& url[split.colon + 2] == '/'
    &&& host_between(url, split.colon + 3, split.host_end)
    &&& split.host_end <= split.end <= url.len()
    &&& split.host_end < split.end ==> url[split.host_end] == ':'
    &&& forall|k: int| split.host_end < k < split.end ==> is_digit(#[trigger] url[k])
    &&& (split.end == url.len() || ends_authority(url[split.end]))
}

/// Whether `url` has an origin.
pub open spec fn has_origin(url: Seq<char>) -> bool {
    exists|split: Split| reads_as(url, split)
}

/// Where `url` is cut.
pub open spec fn origin_split(url: Seq<char>) -> Split
    recommends
        has_origin(url),
{
    choose|split: Split| reads_as(url, split)
}

/// Whether the first `colon` characters of `url` spell `http`, in small
/// letters or in capitals.
pub open spec fn spells_http(url: Seq<char>, colon: int) -> bool {
    &&& colon == 4
    &&& (url[0] == 'h' || url[0] == 'H')
    &&& (url[1] == 't' || url[1] == 'T')
    &&& (url[2] == 't' || url[2] == 'T')
    &&& (url[3] == 'p' || url[3] == 'P')
}

/// Whether the first `colon` characters of `url` spell `https`, in small
/// letters or in capitals.
pub open spec fn spells_https(url: Seq<char>, colon: int) -> bool {
    &&& colon == 5
    &&& (url[0] == 'h' || url[0] == 'H')
    &&& (url[1] == 't' || url[1] == 'T')
    &&& (url[2] == 't' || url[2] == 'T')
    &&& (url[3] == 'p' || url[3] == 'P')
    &&& (url[4] == 's' || url[4] == 'S')
}

/// Whether the characters of `url` from `from` up to `to` spell `number`,
/// with or without zeros before it.
pub open spec fn spells_number(url: Seq<char>, from: int, to: int, number: Seq<char>) -> bool {
    &&& from + number.len() <= to
    &&& forall|i: int| 0 <= i < number.len() ==> url[to - number.len() + i] == #[trigger] number[i]
    &&& forall|k: int| from <= k < to - number.len() ==> #[trigger] url[k] == '0'
}

/// Whether the port that `url` spells is the one its scheme has anyway: 443
/// under `https`, 80 under `http`.
pub open spec fn spells_default_port(url: Seq<char>, split: Split) -> bool {
    ||| spells_https(url, split.colon) && spells_number(
        url,
        split.host_end + 1,
        split.end,
        seq!['4', '4', '3'],
    )
    ||| spells_http(url, split.colon) && spells_number(
        url,
        split.host_end + 1,
        split.end,
        seq!['8', '0'],
    )
}

/// Whether the origin of `url` holds a port: `url` spells one, it is not
/// empty, and it is not the one the scheme has anyway.
pub open spec fn names_port(url: Seq<char>, split: Split) -> bool {
    split.host_end + 1 < split.end && !spells_default_port(url, split)
}

/// The number of characters of `url` that make up its origin: all up to the
/// end of the host, and up to the end of the port where the origin holds one.
pub open spec fn origin_len(url: Seq<char>) -> int
    recommends
        has_origin(url),
{
    let split = origin_split(url);
    if names_port(url, split) {
        split.end
    } else {
        split.host_end
    }
}

/// The origin of `url`: scheme, `://`, host and, where it names one, `:`
/// and port, as `url` spells them.
pub open spec fn origin_of(url: Seq<char>) -> Seq<char>
    recommends
        has_origin(url),
{
    url.subrange(0, origin_len(url))
}

/// A URL reads as scheme, host and port in one way only.
pub proof fn lemma_origin_unique(url: Seq<char>, one: Split, other: Split)
    requires
        reads_as(url, one),
        reads_as(url, other),
    ensures
        one == other,
{
    if one.colon < other.colon {
        assert(is_scheme_char(url[one.colon]));
    }
    if other.colon < one.colon {
        assert(is_scheme_char(url[other.colon]));
    }
    let start = one.colon + 3;
    lemma_host_ends_once(url, start, one, other);
    lemma_host_ends_once(url, start, other, one);
    if one.end < other.end {
        if one.end > one.host_end {
            assert(is_digit(url[one.end]));
        }
    }
    if other.end < one.end {
        if other.end > other.host_end {
            assert(is_digit(url[other.end]));
        }
    }
}

/// Of two readings with one scheme, the host of the first does not end
/// before the host of the second.
proof fn lemma_host_ends_once(url: Seq<char>, start: int, one: Split, other: Split)
    requires
        reads_as(url, one),
        reads_as(url, other),
        one.colon == other.colon,
        start == one.colon + 3,
    ensures
        one.host_end >= other.host_end,
{
    if one.host_end < other.host_end {
        if url[start] == '[' {
            assert(is_literal_char(url[one.host_end - 1]));
        } else {
            assert(is_name_char(url[one.host_end]));
        }
    }
}

/// Where `url` reads as cut at `split`, that is where it is cut, and its
/// origin is its text up to the end of the host, or of the port where the
/// origin holds one.
pub proof fn lemma_origin_is_prefix(url: Seq<char>, split: Split)
    requires
        reads_as(url, split),
    ensures
        has_origin(url),
        origin_split(url) == split,
        origin_len(url) == if names_port(url, split) {
            split.end
        } else {
            split.host_end
        },
        origin_of(url) == url.subrange(0, origin_len(url)),
{
    lemma_origin_unique(url, split, origin_split(url));
}

/// The origin of a URL holds its scheme, `://` and its host in full, and
/// nothing of a path, a query or a fragment. Behind the host it holds `:`
/// and digits, of which there is one at least, or nothing. What follows the
/// origin in the URL is a port that is empty or the default of the scheme,
/// or begins path, query or fragment, or is nothing.
pub proof fn lemma_origin_excludes_path(url: Seq<char>)
    requires
        has_origin(url),
    ensures
        reads_as(url, origin_split(url)),
        origin_split(url).colon + 3 < origin_split(url).host_end <= origin_len(url)
            <= origin_split(url).end <= url.len(),
        origin_of(url).len() == origin_len(url),
        forall|k: int|
            origin_split(url).colon + 3 <= k < origin_len(url) ==> !ends_authority(
                #[trigger] origin_of(url)[k],
            ),
        origin_len(url) == origin_split(url).host_end || origin_len(url) == origin_split(url).end
            && origin_split(url).host_end + 1 < origin_split(url).end,
        forall|k: int|
            origin_split(url).host_end < k < origin_len(url) ==> is_digit(
                #[trigger] origin_of(url)[k],
            ),
        origin_split(url).end < url.len() ==> ends_authority(url[origin_split(url).end]),
{
    let split = origin_split(url);
    let start = split.colon + 3;
    assert forall|k: int| start <= k < origin_len(url) implies !ends_authority(
        #[trigger] origin_of(url)[k],
    ) by {
        if k < split.host_end {
            if url[start] == '[' {
                if start < k < split.host_end - 1 {
                    assert(is_literal_char(url[k]));
                }
            } else {
                assert(is_name_char(url[k]));
            }
        } else if k > split.host_end {
            assert(is_digit(url[k]));
        }
    }
    assert forall|k: int| split.host_end < k < origin_len(url) implies is_digit(
        #[trigger] origin_of(url)[k],
    ) by {
        assert(is_digit(url[k]));
    }
}

/// Two endpoints have one origin where they differ only in that one spells
/// no port and the other spells an empty port or the default port of its
/// scheme.
pub proof fn lemma_default_port_is_left_out(plain: Seq<char>, spelled: Seq<char>, port: Seq<char>)
    requires
        has_origin(plain),
        origin_split(plain).end == origin_split(plain).host_end,
        port.len() == 0 || spells_https(plain, origin_split(plain).colon) && spells_number(
            port,
            0,
            port.len() as int,
            seq!['4', '4', '3'],
        ) || spells_http(plain, origin_split(plain).colon) && spells_number(
            port,
            0,
            port.len() as int,
            seq!['8', '0'],
        ),
        spelled == plain.subrange(0, origin_split(plain).end) + seq![':'] + port + plain.subrange(
            origin_split(plain).end,
            plain.len() as int,
        ),
    ensures
        has_origin(spelled),
        origin_of(spelled) == origin_of(plain),
{
    let split = origin_split(plain);
    let host_end = split.host_end;
    let end = host_end + 1 + port.len();
    let start = split.colon + 3;
    let longer = Split { colon: split.colon, host_end, end };
    assert forall|k: int| 0 <= k < host_end implies #[trigger] spelled[k] == plain[k] by {}
    assert(spelled[host_end] == ':');
    assert forall|k: int| host_end < k < end implies #[trigger] spelled[k] == port[k - host_end
        - 1] by {}
    assert forall|k: int| end <= k < spelled.len() implies #[trigger] spelled[k] == plain[k
        - port.len() - 1] by {}
    assert forall|k: int| 0 <= k < split.colon implies is_scheme_char(#[trigger] spelled[k]) by {
        assert(is_scheme_char(plain[k]));
    }
    assert(host_between(spelled, start, host_end)) by {
        if plain[start] == '[' {
            assert forall|k: int| start < k < host_end - 1 implies is_literal_char(
                #[trigger] spelled[k],
            ) by {
                assert(is_literal_char(plain[k]));
            }
        } else {
            assert forall|k: int| start <= k < host_end implies is_name_char(
                #[trigger] spelled[k],
            ) by {
                assert(is_name_char(plain[k]));
            }
        }
    }
    let number: Seq<char> = if spells_https(plain, split.colon) {
        seq!['4', '4', '3']
    } else {
        seq!['8', '0']
    };
    assert forall|k: int| host_end < k < end implies is_digit(#[trigger] spelled[k]) by {
        let i = k - host_end - 1;
        if i < port.len() - number.len() {
            assert(port[i] == '0');
        } else {
            assert(port[port.len() - number.len() + (i - (port.len() - number.len()))]
                == number[i - (port.len() - number.len())]);
        }
    }
    assert(reads_as(spelled, longer));
    lemma_origin_is_prefix(spelled, longer);
    if port.len() > 0 {
        assert forall|i: int| 0 <= i < number.len() implies spelled[end - number.len() + i]
            == #[trigger] number[i] by {
            assert(port[port.len() - number.len() + i] == number[i]);
        }
        assert forall|k: int| host_end + 1 <= k < end - number.len() implies #[trigger] spelled[k]
            == '0' by {
            assert(port[k - host_end - 1] == '0');
        }
        assert(spells_number(spelled, host_end + 1, end, number));
        assert(spells_default_port(spelled, longer));
    }
    assert(!names_port(spelled, longer));
    assert(!names_port(plain, split));
    assert(origin_of(spelled) =~= origin_of(plain));
}

fn scheme_char(c: char) -> (r: bool)
    ensures
        r == is_scheme_char(c),
{
    alpha(c) || digit(c) || c == '+' || c == '-' || c == '.'
}

fn sub_delimiter(c: char) -> (r: bool)
    ensures
        r == is_sub_delimiter(c),
{
    c == '!' || c == '$' || c == '&' || c == '\'' || c == '(' || c == ')' || c == '*' || c == '+'
        || c == ',' || c == ';' || c == '='
}

fn name_char(c: char) -> (r: bool)
    ensures
        r == is_name_char(c),
{
    alpha(c) || digit(c) || c == '-' || c == '.' || c == '_' || c == '~' || c == '%'
        || sub_delimiter(c)
}

fn literal_char(c: char) -> (r: bool)
    ensures
        r == is_literal_char(c),
{
    alpha(c) || digit(c) || c == ':' || c == '.' || c == '%' || c == '-' || c == '_' || c == '~'
}

/// Whether the characters of `url` from `from` up to `to` spell `number`,
/// with or without zeros before it.
fn number_spelled(url: &Vec<char>, from: usize, to: usize, number: &Vec<char>) -> (r: bool)
    requires
        from <= to <= url.len(),
    ensures
        r == spells_number(url@, from as int, to as int, number@),
{
    let n = number.len();
    if to - from < n {
        return false;
    }
    let tail = to - n;
    let mut i: usize = 0;
    while i < n
        invariant
            i <= n == number.len(),
            tail + n == to <= url.len(),
            forall|j: int| 0 <= j < i ==> url[tail + j] == #[trigger] number[j],
        decreases n - i,
    {
        if url[tail + i] != number[i] {
            assert(url@[to - number@.len() + i] != number@[i as int]);
            return false;
        }
        i += 1;
    }
    let mut k: usize = from;
    while k < tail
        invariant
            from <= k <= tail,
            tail + n == to <= url.len(),
            n == number.len(),
            forall|j: int| 0 <= j < n ==> url[tail + j] == #[trigger] number[j],
            forall|j: int| from <= j < k ==> #[trigger] url[j] == '0',
        decreases tail - k,
    {
        if url[k] != '0' {
            assert(url@[k as int] != '0');
            return false;
        }
        k += 1;
    }
    true
}

/// Whether the port that `url` spells between `host_end` and `end` is the
/// one its scheme has anyway.
fn default_port_spelled(url: &Vec<char>, colon: usize, host_end: usize, end: usize) -> (r: bool)
    requires
        4 <= colon,
        colon < host_end < end <= url.len(),
    ensures
        r == spells_default_port(
            url@,
            Split { colon: colon as int, host_end: host_end as int, end: end as int },
        ),
{
    let http = (url[0] == 'h' || url[0] == 'H') && (url[1] == 't' || url[1] == 'T') && (url[2]
        == 't' || url[2] == 'T') && (url[3] == 'p' || url[3] == 'P');
    if colon == 5 && http && (url[4] == 's' || url[4] == 'S') {
        let number = vec!['4', '4', '3'];
        assert(number@ =~= seq!['4', '4', '3']);
        number_spelled(url, host_end + 1, end, &number)
    } else if colon == 4 && http {
        let number = vec!['8', '0'];
        assert(number@ =~= seq!['8', '0']);
        number_spelled(url, host_end + 1, end, &number)
    } else {
        false
    }
}

/// Where the host that begins at `start` ends, if one begins there.
fn find_host_end(url: &Vec<char>, start: usize) -> (found: Option<usize>)
    requires
        start <= url.len(),
    ensures
        match found {
            Some(host_end) => host_between(url@, start as int, host_end as int) && (url[start as int]
                == '[' || host_end == url.len() || !is_name_char(url[host_end as int])),
            None => forall|host_end: int| !host_between(url@, start as int, host_end),
        },
{
    let len = url.len();
    if start >= len {
        return None;
    }
    if url[start] == '[' {
        let mut i: usize = start + 1;
        while i < len && literal_char(url[i])
            invariant
                start < i <= len == url.len(),
                forall|k: int| start < k < i ==> is_literal_char(#[trigger] url[k]),
            decreases len - i,
        {
            i += 1;
        }
        if i == start + 1 || i == len || url[i] != ']' {
            assert forall|host_end: int| !host_between(url@, start as int, host_end) by {
                if host_between(url@, start as int, host_end) {
                    if host_end - 1 < i {
                        assert(is_literal_char(url@[host_end - 1]));
                    } else if host_end - 1 > i {
                        assert(is_literal_char(url@[i as int]));
                    }
                }
            }
            return None;
        }
        Some(i + 1)
    } else {
        let mut i: usize = start;
        while i < len && name_char(url[i])
            invariant
                start <= i <= len == url.len(),
                forall|k: int| start <= k < i ==> is_name_char(#[trigger] url[k]),
            decreases len - i,
        {
            i += 1;
        }
        if i == start {
            assert forall|host_end: int| !host_between(url@, start as int, host_end) by {
                if host_between(url@, start as int, host_end) {
                    assert(is_name_char(url@[start as int]));
                }
            }
            return None;
        }
        Some(i)
    }
}

/// The length of the origin of `url`, if it has one.
pub fn find_origin_end(url: &Vec<char>) -> (found: Option<usize>)
    ensures
        found is Some <==> has_origin(url@),
        found matches Some(end) ==> end == origin_len(url@),
{
    let len = url.len();
    if len == 0 || !alpha(url[0]) {
        return None;
    }
    let mut colon: usize = 1;
    while colon < len && scheme_char(url[colon])
        invariant
            1 <= colon <= len == url.len(),
            forall|k: int| 0 <= k < colon ==> is_scheme_char(#[trigger] url[k]),
        decreases len - colon,
    {
        colon += 1;
    }
    proof {
        assert forall|split: Split| reads_as(url@, split) implies split.colon == colon by {
            if split.colon < colon {
                assert(is_scheme_char(url@[split.colon]));
            } else if split.colon > colon {
                assert(is_scheme_char(url@[colon as int]));
            }
        }
    }
    if len - colon < 4 || url[colon] != ':' || url[colon + 1] != '/' || url[colon + 2] != '/' {
        return None;
    }
    let start = colon + 3;
    let host_end = match find_host_end(url, start) {
        Some(host_end) => host_end,
        None => {
            assert forall|split: Split| !reads_as(url@, split) by {
                if reads_as(url@, split) {
                    assert(host_between(url@, start as int, split.host_end));
                }
            }
            return None;
        },
    };
    proof {
        assert forall|split: Split| reads_as(url@, split) implies split.host_end == host_end by {
            if split.host_end < host_end {
                if url@[start as int] == '[' {
                    assert(is_literal_char(url@[split.host_end - 1]));
                } else {
                    assert(is_name_char(url@[split.host_end]));
                }
            } else if split.host_end > host_end {
                if url@[start as int] == '[' {
                    assert(is_literal_char(url@[host_end - 1]));
                } else {
                    assert(is_name_char(url@[host_end as int]));
                }
            }
        }
    }
    let mut end: usize = host_end;
    if host_end < len && url[host_end] == ':' {
        end = host_end + 1;
        while end < len && digit(url[end])
            invariant
                host_end < end <= len == url.len(),
                forall|k: int| host_end < k < end ==> is_digit(#[trigger] url[k]),
            decreases len - end,
        {
            end += 1;
        }
    }
    proof {
        assert forall|split: Split| reads_as(url@, split) implies split.end == end by {
            if split.end < end {
                if split.end > host_end {
                    assert(is_digit(url@[split.end]));
                }
            } else if split.end > end {
                if end > host_end {
                    assert(is_digit(url@[end as int]));
                }
            }
        }
    }
    if end < len && url[end] != '/' && url[end] != '?' && url[end] != '#' {
        return None;
    }
    let ghost split = Split { colon: colon as int, host_end: host_end as int, end: end as int };
    proof {
        assert(reads_as(url@, split));
        lemma_origin_is_prefix(url@, split);
    }
    if end - host_end > 1 && !(colon >= 4 && default_port_spelled(url, colon, host_end, end)) {
        Some(end)
    } else {
        Some(host_end)
    }
}

/// The audience of a VAPID token for `endpoint`: the origin of the push
/// service behind it, or `None` where the endpoint has none.
pub fn audience_of(endpoint: &str) -> (audience: Option<String>)
    ensures
        audience is Some <==> has_origin(endpoint@),
        audience matches Some(origin) ==> origin@ == origin_of(endpoint@),
{
    let chars = chars_of(endpoint);
    match find_origin_end(&chars) {
        Some(end) => {
            proof {
                lemma_origin_excludes_path(endpoint@);
            }
            Some(String::from_str(endpoint.substring_char(0, end)))
        },
        None => None,
    }
}

} // verus!
