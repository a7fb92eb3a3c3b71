//! Taking a URL apart into the host to connect to, the port and the path to ask for.

use vstd::prelude::*;
use vstd::string::StringExecFns;
use crate::decimal::{
    decimal_text, is_digit, lemma_decimal_text_reads_back, parse_u16, push_decimal, u16_of,
};
use crate::error::Error;
use crate::text::{chars_of, find_char, push_char, starts_with, string_of};
use crate::trim::{
    is_blank, is_space, lemma_trim_end_after, lemma_trim_end_changes, lemma_trim_end_is_prefix,
    lemma_trimmed_ignores_padding, lemma_trimmed_keeps, trim_bounds, trim_end, trimmed,
};

verus! {

/// The port used when the URL names none, or names one that is no 16-bit number.
pub const DEFAULT_PORT: u16 = 80;

/// Where a request goes, as plain values: the model of [`ParsedTarget`].
pub struct Target {
    pub host: Seq<char>,
    pub port: u16,
    pub path: Seq<char>,
}

impl Target {
    /// The address to connect to, written `host:port`.
    pub open spec fn address(self) -> Seq<char> {
        self.host + seq![':'] + decimal_text(self.port as nat)
    }

    /// What holds of every target that a URL gives: the path begins with a slash, and
    /// the host holds neither a slash nor a colon.
    pub open spec fn well_formed(self) -> bool {
        &&& self.path.len() > 0
        &&& self.path[0] == '/'
        &&& !self.host.contains('/')
        &&& !self.host.contains(':')
    }
}

/// Where a request goes: the host to connect to, the port, and the path to ask for.
#[derive(Debug, PartialEq, Eq)]
pub struct ParsedTarget {
    pub host: String,
    pub port: u16,
    pub path: String,
}

impl View for ParsedTarget {
    type V = Target;

    open spec fn view(&self) -> Target {
        Target { host: self.host@, port: self.port, path: self.path@ }
    }
}

impl ParsedTarget {
    /// The address to connect to, written `host:port`.
    pub fn address(&self) -> (text: String)
        ensures
            text@ == self@.address(),
    {
        let mut text = self.host.clone();
        push_char(&mut text, ':');
        push_decimal(&mut text, self.port as usize);
        text
    }
}

/// What follows the scheme of a trimmed URL: the text after `http://`, nothing for an
/// `https://` URL, and the whole text where neither stands in front.
pub open spec fn without_scheme(url: Seq<char>) -> Option<Seq<char>> {
    if "http://"@.is_prefix_of(url) {
        Some(url.skip("http://"@.len() as int))
    } else if "https://"@.is_prefix_of(url) {
        None
    } else {
        Some(url)
    }
}

/// The port that the text after the colon names, or the default when it names none.
pub open spec fn port_or_default(text: Seq<char>) -> u16 {
    match u16_of(text) {
        Some(port) => port,
        None => DEFAULT_PORT,
    }
}

/// Splits `host[:port]` at its first colon.
pub open spec fn split_authority(authority: Seq<char>) -> (Seq<char>, u16) {
    match authority.index_of_first(':') {
        Some(colon) => (authority.take(colon), port_or_default(authority.skip(colon + 1))),
        None => (authority, DEFAULT_PORT),
    }
}

/// Splits `host[:port][/path]` at its first slash, which stays with the path, and then
/// the part before it at its first colon.
pub open spec fn target_of(rest: Seq<char>) -> Target {
    let (authority, path) = match rest.index_of_first('/') {
        Some(slash) => (rest.take(slash), rest.skip(slash)),
        None => (rest, seq!['/']),
    };
    let (host, port) = split_authority(authority);
    Target { host, port, path }
}

/// The target that a URL names, or `None` for an `https://` URL.
pub open spec fn decomposed(url: Seq<char>) -> Option<Target> {
    match without_scheme(trimmed(url)) {
        Some(rest) => Some(target_of(rest)),
        None => None,
    }
}

/// Splits `v[from..to]`, a text `host[:port]`, at its first colon.
fn authority_in(v: &Vec<char>, from: usize, to: usize) -> (r: (String, u16))
    requires
        from <= to <= v@.len(),
    ensures
        (r.0@, r.1) == split_authority(v@.subrange(from as int, to as int)),
{
    let ghost authority = v@.subrange(from as int, to as int);
    match find_char(v, from, to, ':') {
        Some(colon) => {
            let host = string_of(v, from, colon);
            assert(v@.subrange(colon + 1, to as int) =~= authority.skip(colon - from + 1));
            let port = match parse_u16(v, colon + 1, to) {
                Some(port) => port,
                None => DEFAULT_PORT,
            };
            (host, port)
        },
        None => (string_of(v, from, to), DEFAULT_PORT),
    }
}

/// Splits `v[from..to]`, a text `host[:port][/path]`, into host, port and path.
fn target_in(v: &Vec<char>, from: usize, to: usize) -> (target: ParsedTarget)
    requires
        from <= to <= v@.len(),
    ensures
        target@ == target_of(v@.subrange(from as int, to as int)),
{
    let ghost rest = v@.subrange(from as int, to as int);
    match find_char(v, from, to, '/') {
        Some(slash) => {
            let path = string_of(v, slash, to);
            assert(path@ =~= rest.skip(slash - from));
            assert(v@.subrange(from as int, slash as int) =~= rest.take(slash - from));
            let (host, port) = authority_in(v, from, slash);
            ParsedTarget { host, port, path }
        },
        None => {
            proof {
                reveal_strlit("/");
            }
            let path = String::from_str("/");
            assert(path@ =~= seq!['/']);
            let (host, port) = authority_in(v, from, to);
            ParsedTarget { host, port, path }
        },
    }
}

/// Splits a URL into host, port and path.
///
/// Whitespace around the URL is dropped. `http://` in front is dropped too; an
/// `https://` URL is refused. The host ends at the first `:` or `/`; the path starts at
/// the first `/` and is `/` when there is none. Text between `:` and the path that is
/// no 16-bit number gives the default port.
pub fn decompose(url: &str) -> (r: Result<ParsedTarget, Error>)
    ensures
        match r {
            Ok(target) => decomposed(url@) == Some(target@) && target@.well_formed(),
            Err(e) => e == Error::UnsupportedScheme && decomposed(url@) is None,
        },
{
    let v = chars_of(url);
    let (start, end) = trim_bounds(&v);
    let http = chars_of("http://");
    let https = chars_of("https://");
    let ghost whole = v@.subrange(start as int, end as int);
    let mut from: usize = start;
    if starts_with(&v, start, end, &http) {
        from = start + http.len();
        assert(v@.subrange(from as int, end as int) =~= whole.skip(http@.len() as int));
    } else if starts_with(&v, start, end, &https) {
        return Err(Error::UnsupportedScheme);
    }
    proof {
        lemma_target_well_formed(v@.subrange(from as int, end as int));
    }
    Ok(target_in(&v, from, end))
}

/// A text that holds no `c` has no first `c`; with a `c` after it, that one is the first.
pub proof fn lemma_first_after(before: Seq<char>, c: char, after: Seq<char>)
    requires
        !before.contains(c),
    ensures
        before.index_of_first(c) is None,
        (before + seq![c] + after).index_of_first(c) == Some(before.len() as int),
{
    before.index_of_first_ensures(c);
    let joined = before + seq![c] + after;
    joined.index_of_first_ensures(c);
    assert(joined[before.len() as int] == c);
    assert forall|j: int| 0 <= j < before.len() implies joined[j] != c by {}
}

/// Every target split off a text is well formed.
pub proof fn lemma_target_well_formed(rest: Seq<char>)
    ensures
        target_of(rest).well_formed(),
{
    rest.index_of_first_ensures('/');
    let authority = match rest.index_of_first('/') {
        Some(slash) => rest.take(slash),
        None => rest,
    };
    assert(!authority.contains('/'));
    authority.index_of_first_ensures(':');
    let host = split_authority(authority).0;
    assert forall|i: int| 0 <= i < host.len() implies host[i] != '/' && host[i] != ':' by {}
}

/// Whitespace around a URL makes no difference to the target it names.
pub proof fn lemma_padding_ignored(lead: Seq<char>, url: Seq<char>, trail: Seq<char>)
    requires
        is_blank(lead),
        is_blank(trail),
    ensures
        decomposed(lead + url + trail) == decomposed(url),
{
    lemma_trimmed_ignores_padding(lead, url, trail);
}

/// The text `http://host[:port][/path]`.
pub open spec fn http_url(host: Seq<char>, port: Option<Seq<char>>, path: Option<Seq<char>>) -> Seq<
    char,
> {
    "http://"@ + host + (match port {
        Some(digits) => seq![':'] + digits,
        None => Seq::<char>::empty(),
    }) + (match path {
        Some(segments) => seq!['/'] + segments,
        None => Seq::<char>::empty(),
    })
}

/// The target that `http://host[:port][/path]` names when read as it stands: that
/// host, the port that the digits write (the default where none is written, or what
/// is written is no 16-bit number), and the path with its slash (`/` alone where none
/// is written).
pub open spec fn http_target(
    host: Seq<char>,
    port: Option<Seq<char>>,
    path: Option<Seq<char>>,
) -> Target {
    Target {
        host,
        port: match port {
            Some(digits) => port_or_default(digits),
            None => DEFAULT_PORT,
        },
        path: match path {
            Some(segments) => seq!['/'] + segments,
            None => seq!['/'],
        },
    }
}

/// True when the three parts can stand in `http://host[:port][/path]` and be found
/// again: the host holds neither a slash nor a colon, and the port holds no slash.
pub open spec fn is_http_form(host: Seq<char>, port: Option<Seq<char>>) -> bool {
    &&& !host.contains('/')
    &&& !host.contains(':')
    &&& port matches Some(digits) ==> !digits.contains('/')
}

/// A URL `http://host[:port][/path]` that does not end in whitespace names that host,
/// that port and that path.
pub proof fn lemma_decompose_http(
    host: Seq<char>,
    port: Option<Seq<char>>,
    path: Option<Seq<char>>,
)
    requires
        is_http_form(host, port),
        !is_space(http_url(host, port, path).last()),
    ensures
        decomposed(http_url(host, port, path)) == Some(http_target(host, port, path)),
{
    reveal_strlit("http://");
    reveal_strlit("https://");
    let url = http_url(host, port, path);
    let none = Seq::<char>::empty();
    let port_part = match port {
        Some(digits) => seq![':'] + digits,
        None => none,
    };
    let path_tail = match path {
        Some(segments) => segments,
        None => none,
    };
    let authority = host + port_part;
    lemma_trimmed_keeps(url);
    let rest = url.skip(7);
    assert(!authority.contains('/'));
    lemma_first_after(authority, '/', path_tail);
    if path is Some {
        assert(rest =~= authority + seq!['/'] + path_tail);
        assert(rest.take(authority.len() as int) =~= authority);
        assert(rest.skip(authority.len() as int) =~= seq!['/'] + path_tail);
    } else {
        assert(rest =~= authority);
    }
    match port {
        Some(digits) => {
            lemma_first_after(host, ':', digits);
            assert(authority =~= host + seq![':'] + digits);
            assert(authority.take(host.len() as int) =~= host);
            assert(authority.skip(host.len() as int + 1) =~= digits);
        },
        None => {
            lemma_first_after(host, ':', none);
        },
    }
}

/// What holds of every `http://host[:port][/path]`: whitespace at the end of the URL
/// is dropped from its last part, and the URL then names its host, port and path.
pub proof fn lemma_decompose_http_trailing(
    host: Seq<char>,
    port: Option<Seq<char>>,
    path: Option<Seq<char>>,
)
    requires
        is_http_form(host, port),
    ensures
        decomposed(http_url(host, port, path)) == Some(
            match (port, path) {
                (_, Some(segments)) => http_target(host, port, Some(trim_end(segments))),
                (Some(digits), None) => http_target(host, Some(trim_end(digits)), None),
                (None, None) => http_target(trim_end(host), None, None),
            },
        ),
{
    reveal_strlit("http://");
    let url = http_url(host, port, path);
    let none = Seq::<char>::empty();
    let scheme = "http://"@;
    match (port, path) {
        (_, Some(segments)) => {
            let kept = trim_end(segments);
            let front = scheme + host + (match port {
                Some(digits) => seq![':'] + digits,
                None => none,
            }) + seq!['/'];
            assert(url =~= front + segments);
            lemma_trim_end_after(front, segments);
            lemma_trim_end_is_prefix(segments);
            let short = http_url(host, port, Some(kept));
            assert(short =~= front + kept);
            lemma_trimmed_keeps(short);
            lemma_decompose_http(host, port, Some(kept));
        },
        (Some(digits), None) => {
            let kept = trim_end(digits);
            let front = scheme + host + seq![':'];
            assert(url =~= front + digits);
            lemma_trim_end_after(front, digits);
            lemma_trim_end_is_prefix(digits);
            assert(!kept.contains('/'));
            let short = http_url(host, Some(kept), None);
            assert(short =~= front + kept);
            lemma_trimmed_keeps(short);
            lemma_decompose_http(host, Some(kept), None);
        },
        (None, None) => {
            let kept = trim_end(host);
            lemma_trim_end_after(scheme, host);
            lemma_trim_end_is_prefix(host);
            assert(!kept.contains('/') && !kept.contains(':'));
            let short = http_url(kept, None, None);
            lemma_trimmed_keeps(short);
            lemma_decompose_http(kept, None, None);
        },
    }
}

/// True when the whitespace that trimming takes from the end of
/// `http://host[:port][/path]` changes nothing of what the URL names: the URL ends in
/// none, or it ends in a port that is as little a number with it as without it.
pub open spec fn survives_trimming(
    host: Seq<char>,
    port: Option<Seq<char>>,
    path: Option<Seq<char>>,
) -> bool {
    ||| !is_space(http_url(host, port, path).last())
    ||| {
        &&& path is None
        &&& port matches Some(digits)
        &&& port_or_default(trim_end(digits)) == DEFAULT_PORT
    }
}

/// A URL `http://host[:port][/path]` names that host, that port and that path if
/// the whitespace at its end changes nothing, and only then.
pub proof fn lemma_decompose_http_exact(
    host: Seq<char>,
    port: Option<Seq<char>>,
    path: Option<Seq<char>>,
)
    requires
        is_http_form(host, port),
    ensures
        decomposed(http_url(host, port, path)) == Some(http_target(host, port, path))
            <==> survives_trimming(host, port, path),
{
    reveal_strlit("http://");
    let named = http_target(host, port, path);
    lemma_decompose_http_trailing(host, port, path);
    match (port, path) {
        (_, Some(segments)) => {
            let kept = trim_end(segments);
            lemma_trim_end_changes(segments);
            let read = http_target(host, port, Some(kept));
            assert(read.path.skip(1) =~= kept);
            assert(named.path.skip(1) =~= segments);
        },
        (Some(digits), None) => {
            lemma_trim_end_changes(digits);
            if digits.len() > 0 && is_space(digits.last()) {
                let written = if digits[0] == '+' {
                    digits.drop_first()
                } else {
                    digits
                };
                assert(written.len() > 0 ==> !is_digit(written.last()));
                assert(u16_of(digits) is None);
            }
        },
        (None, None) => {
            lemma_trim_end_changes(host);
        },
    }
}

/// A target written out as `http://`, its address and its path names itself again,
/// provided it is well formed and its path does not end in whitespace.
pub proof fn lemma_address_reads_back(target: Target)
    requires
        target.well_formed(),
        !is_space(target.path.last()),
    ensures
        decomposed("http://"@ + target.address() + target.path) == Some(target),
{
    let digits = decimal_text(target.port as nat);
    let segments = target.path.skip(1);
    let url = http_url(target.host, Some(digits), Some(segments));
    lemma_decimal_text_reads_back(target.port as nat);
    assert(!digits.contains('/'));
    assert(seq!['/'] + segments =~= target.path);
    assert(url =~= "http://"@ + target.address() + target.path);
    lemma_decompose_http(target.host, Some(digits), Some(segments));
}

/// A URL that begins with `https://` names no target.
pub proof fn lemma_https_refused(url: Seq<char>)
    requires
        "https://"@.is_prefix_of(url),
    ensures
        decomposed(url) is None,
{
    reveal_strlit("http://");
    reveal_strlit("https://");
    let https = "https://"@;
    let tail = url.skip(8);
    assert(url =~= https + tail);
    lemma_trim_end_after(https, tail);
    let kept = trimmed(url);
    assert(!"http://"@.is_prefix_of(kept)) by {
        if "http://"@.is_prefix_of(kept) {
            assert(kept.subrange(0, 7)[4] == ':');
        }
    }
}

} // verus!
