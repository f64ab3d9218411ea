//! Where the body of an entry is kept on disk.
//!
//! The path of an entry is a function of its method and its URL alone, so
//! that the program that writes a dump and the program that serves from it
//! agree on every file name.

use vstd::prelude::*;
use crate::method::HttpMethod;
use crate::text::chars_of;
use crate::text::hex_char;
use crate::text::hex_lower;
use crate::text::lemma_utf8_size_concat;
use crate::text::lemma_utf8_size_first;
use crate::text::longer_than;
use crate::text::push_all;
use crate::text::push_hex;
use crate::text::replace_all;
use crate::text::replace_all_of;
use crate::text::string_of;
use crate::text::utf8_len;
use crate::text::utf8_len_of;
use crate::text::utf8_size;

verus! {

/// The most bytes that one component of a path may take before it is
/// shortened.
pub const COMPONENT_LIMIT: usize = 200;

/// The number of characters that a digest takes in hexadecimal.
pub const DIGEST_CHARS: usize = 32;

/// The MD5 digest of the UTF-8 bytes of `text`.
pub uninterp spec fn md5_digest(text: Seq<char>) -> Seq<u8>;

/// Calls `md5::compute` on the bytes of `text` and copies the sixteen bytes
/// of the digest out. The contract gives the digest its name and states its
/// length.
#[verifier::external_body]
pub(crate) fn md5_of(text: &str) -> (r: Vec<u8>)
    ensures
        r@ == md5_digest(text@),
        r@.len() == 16,
{
    md5::compute(text).0.to_vec()
}

/// The number of leading characters of `s` whose UTF-8 encoding fits into
/// `bytes` bytes.
pub open spec fn chars_within(s: Seq<char>, bytes: nat) -> nat
    decreases s.len(),
{
    if s.len() == 0 || utf8_len(s[0]) > bytes {
        0
    } else {
        1 + chars_within(s.skip(1), (bytes - utf8_len(s[0])) as nat)
    }
}

/// Whether `n` is the greatest number of leading characters of `s` that
/// fit into `bytes` bytes.
pub open spec fn longest_within(s: Seq<char>, bytes: nat, n: nat) -> bool {
    &&& n <= s.len()
    &&& utf8_size(s.take(n as int)) <= bytes
    &&& forall|k: int| n < k <= s.len() ==> utf8_size(#[trigger] s.take(k)) > bytes
}

/// The longest run of leading characters of `s` that fits into `bytes`
/// bytes: no character is ever cut in two.
pub open spec fn byte_prefix(s: Seq<char>, bytes: nat) -> Seq<char> {
    s.take(chars_within(s, bytes) as int)
}

/// `s` cut down to `limit` bytes less the room for a digest, then an
/// underscore and `digest` in hexadecimal.
pub open spec fn truncated_with(s: Seq<char>, limit: nat, digest: Seq<u8>) -> Seq<char> {
    byte_prefix(s, (limit - DIGEST_CHARS) as nat) + seq!['_'] + hex_lower(digest)
}

/// `s` cut down to `limit` bytes less the room for a digest, then an
/// underscore and the digest of all of `s` in hexadecimal.
pub open spec fn uniquely_truncated(s: Seq<char>, limit: nat) -> Seq<char> {
    truncated_with(s, limit, md5_digest(s))
}

/// The form in which a component is written to disk: itself, or shortened
/// where it takes more than the limit.
pub open spec fn stored_component(c: Seq<char>) -> Seq<char> {
    if utf8_size(c) > COMPONENT_LIMIT {
        uniquely_truncated(c, COMPONENT_LIMIT as nat)
    } else {
        c
    }
}

/// The stored forms of a list of components.
pub open spec fn stored_components(parts: Seq<Seq<char>>) -> Seq<Seq<char>> {
    Seq::new(parts.len(), |i: int| stored_component(parts[i]))
}

/// Whether each of `parts` takes at most one byte more than the limit for a
/// component.
pub open spec fn components_fit(parts: Seq<Seq<char>>) -> bool {
    forall|i: int| 0 <= i < parts.len() ==> utf8_size(#[trigger] parts[i]) <= COMPONENT_LIMIT + 1
}

/// `url` without any `http://` and then without any `https://`.
pub open spec fn strip_schemes(url: Seq<char>) -> Seq<char> {
    replace_all(
        replace_all(url, "http://"@, Seq::empty()),
        "https://"@,
        Seq::empty(),
    )
}

/// The place of the first `/` in `s` at or after `from`, or the length of `s`
/// where there is none.
pub open spec fn segment_end(s: Seq<char>, from: int) -> int
    decreases s.len() - from,
{
    if from < 0 || from >= s.len() || s[from] == '/' {
        from
    } else {
        segment_end(s, from + 1)
    }
}

/// Whether a segment between two slashes counts as a component: an empty
/// one and a single dot do not.
pub open spec fn kept(segment: Seq<char>) -> bool {
    segment.len() > 0 && segment != seq!['.']
}

/// The components among the segments of `s` that start at or after `from`.
pub open spec fn segments_from(s: Seq<char>, from: int) -> Seq<Seq<char>>
    decreases s.len() + 1 - from,
{
    let end = segment_end(s, from);
    if from < 0 || from >= s.len() || end < from || end > s.len() {
        Seq::empty()
    } else {
        let segment = s.subrange(from, end);
        if kept(segment) {
            seq![segment] + segments_from(s, end + 1)
        } else {
            segments_from(s, end + 1)
        }
    }
}

/// What stands before the plain components of `s`: a dot where the first
/// segment of `s` is a single dot, and nothing otherwise. A slash at the
/// start of `s` adds nothing.
pub open spec fn leading_component(s: Seq<char>) -> Seq<Seq<char>> {
    if s.subrange(0, segment_end(s, 0)) == seq!['.'] {
        seq![seq!['.']]
    } else {
        Seq::empty()
    }
}

/// The components of `s` read as a path: slashes at the start and runs of
/// slashes add nothing, single dots are left out but at the start, and a
/// slash at the end adds nothing.
pub open spec fn path_components(s: Seq<char>) -> Seq<Seq<char>> {
    leading_component(s) + segments_from(s, 0)
}

/// `path` with `component` joined to it: the component is appended, after a
/// slash unless the path is empty or ends with one already. Nothing of the
/// path is ever taken away.
pub open spec fn path_push(path: Seq<char>, component: Seq<char>) -> Seq<char> {
    if path.len() > 0 && path.last() != '/' {
        path + seq!['/'] + component
    } else {
        path + component
    }
}

/// Whether `text` begins with `prefix`.
pub open spec fn begins_with(text: Seq<char>, prefix: Seq<char>) -> bool {
    prefix.len() <= text.len() && text.take(prefix.len() as int) == prefix
}

/// `path` with each of `parts` joined to it in turn.
pub open spec fn push_each(path: Seq<char>, parts: Seq<Seq<char>>) -> Seq<char>
    decreases parts.len(),
{
    if parts.len() == 0 {
        path
    } else {
        path_push(push_each(path, parts.drop_last()), parts.last())
    }
}

/// What is added last: the name of an index file where the URL ends with a
/// slash.
pub open spec fn index_component(stripped: Seq<char>) -> Seq<Seq<char>> {
    if stripped.len() > 0 && stripped.last() == '/' {
        seq!["__index__"@]
    } else {
        Seq::empty()
    }
}

/// The parts that are joined to the base directory for an entry: the name of
/// the method, the stored components of the URL without its scheme, and the
/// index name where the URL ends with a slash.
pub open spec fn dump_parts(method: Seq<char>, url: Seq<char>) -> Seq<Seq<char>> {
    let stripped = strip_schemes(url);
    seq![method] + stored_components(path_components(stripped)) + index_component(stripped)
}

/// The path under `base` at which the body of an entry with this method and
/// URL is kept.
pub open spec fn dump_path(base: Seq<char>, method: Seq<char>, url: Seq<char>) -> Seq<char> {
    push_each(base, dump_parts(method, url))
}

/// The end of a segment lies between its start and the end of the text,
/// no slash stands inside the segment, and one stands at its end unless the
/// text ends there.
pub proof fn lemma_segment_end(s: Seq<char>, from: int)
    requires
        0 <= from <= s.len(),
    ensures
        from <= segment_end(s, from) <= s.len(),
        forall|k: int| from <= k < segment_end(s, from) ==> s[k] != '/',
        segment_end(s, from) < s.len() ==> s[segment_end(s, from)] == '/',
    decreases s.len() - from,
{
    if from < s.len() && s[from] != '/' {
        lemma_segment_end(s, from + 1);
    }
}

/// Joining a list of parts and then one more is joining the longer list.
pub proof fn lemma_push_each_push(path: Seq<char>, parts: Seq<Seq<char>>, last: Seq<char>)
    ensures
        push_each(path, parts.push(last)) == path_push(push_each(path, parts), last),
{
    assert(parts.push(last).drop_last() == parts);
}

/// The number that `chars_within` gives is the greatest number of leading
/// characters that fit into that many bytes.
pub proof fn lemma_chars_within(s: Seq<char>, bytes: nat)
    ensures
        longest_within(s, bytes, chars_within(s, bytes)),
    decreases s.len(),
{
    if s.len() > 0 {
        let rest = s.skip(1);
        let width = utf8_len(s[0]);
        assert forall|k: int| 1 <= k <= s.len() implies utf8_size(#[trigger] s.take(k)) == width
            + utf8_size(rest.take(k - 1)) by {
            lemma_utf8_size_first(s.take(k));
            assert(s.take(k).skip(1) == rest.take(k - 1));
        }
        if width > bytes {
            assert(utf8_size(s.take(0)) == 0);
        } else {
            let left = (bytes - width) as nat;
            lemma_chars_within(rest, left);
            let m = chars_within(rest, left);
            assert(utf8_size(s.take(m as int + 1)) == width + utf8_size(rest.take(m as int)));
        }
    }
}

/// Of a text of ASCII characters, as many characters fit into a number of
/// bytes as there are bytes, or all of them where the text is shorter.
pub proof fn lemma_ascii_within(s: Seq<char>, bytes: nat)
    requires
        forall|i: int| 0 <= i < s.len() ==> utf8_len(#[trigger] s[i]) == 1,
    ensures
        chars_within(s, bytes) == if s.len() <= bytes {
            s.len()
        } else {
            bytes
        },
    decreases s.len(),
{
    if s.len() > 0 && bytes > 0 {
        let rest = s.skip(1);
        lemma_ascii_within(rest, (bytes - 1) as nat);
    }
}

/// Hexadecimal notation takes two characters, and two bytes, for each
/// byte.
pub proof fn lemma_hex_lower_size(bytes: Seq<u8>)
    ensures
        hex_lower(bytes).len() == 2 * bytes.len(),
        utf8_size(hex_lower(bytes)) == 2 * bytes.len(),
    decreases bytes.len(),
{
    if bytes.len() > 0 {
        lemma_hex_lower_size(bytes.drop_last());
        let before = hex_lower(bytes.drop_last());
        let high = hex_char((bytes.last() / 16) as nat);
        let low = hex_char((bytes.last() % 16) as nat);
        assert(before.push(high).drop_last() == before);
        assert(before.push(high).push(low).drop_last() == before.push(high));
        assert(utf8_size(before.push(high)) == utf8_size(before) + 1);
    }
}

/// A text that was shortened with a digest of sixteen bytes takes at most
/// one byte more than the limit, and has as many characters as fitted into
/// the room before the digest, and thirty-three more.
pub proof fn lemma_truncated_size(s: Seq<char>, limit: nat, digest: Seq<u8>)
    requires
        limit >= DIGEST_CHARS,
        digest.len() == 16,
    ensures
        utf8_size(truncated_with(s, limit, digest)) <= limit + 1,
        truncated_with(s, limit, digest).len() == chars_within(
            s,
            (limit - DIGEST_CHARS) as nat,
        ) + 33,
{
    let room = (limit - DIGEST_CHARS) as nat;
    let head = byte_prefix(s, room);
    lemma_chars_within(s, room);
    lemma_hex_lower_size(digest);
    lemma_utf8_size_concat(head, seq!['_']);
    lemma_utf8_size_concat(head + seq!['_'], hex_lower(digest));
    assert(utf8_size(seq!['_'].drop_last()) == 0);
    assert(seq!['_'].last() == '_');
}

/// A path that a component was joined to begins with the path as it was.
pub proof fn lemma_path_push_extends(path: Seq<char>, component: Seq<char>)
    ensures
        begins_with(path_push(path, component), path),
{
    assert(path_push(path, component).take(path.len() as int) == path);
}

/// A path that components were joined to begins with the path as it was.
pub proof fn lemma_push_each_extends(path: Seq<char>, parts: Seq<Seq<char>>)
    ensures
        begins_with(push_each(path, parts), path),
    decreases parts.len(),
{
    if parts.len() == 0 {
        assert(path.take(path.len() as int) == path);
    } else {
        let before = push_each(path, parts.drop_last());
        lemma_push_each_extends(path, parts.drop_last());
        lemma_path_push_extends(before, parts.last());
        assert(push_each(path, parts).take(before.len() as int).take(path.len() as int)
            == push_each(path, parts).take(path.len() as int));
    }
}

/// Joining a first part and then the others is joining the whole list.
pub proof fn lemma_push_each_first(path: Seq<char>, first: Seq<char>, rest: Seq<Seq<char>>)
    ensures
        push_each(path, seq![first] + rest) == push_each(path_push(path, first), rest),
    decreases rest.len(),
{
    if rest.len() == 0 {
        assert(seq![first] + rest == seq![first]);
        assert(seq![first].drop_last().len() == 0);
        assert(push_each(path, seq![first].drop_last()) == path);
    } else {
        lemma_push_each_first(path, first, rest.drop_last());
        assert((seq![first] + rest).drop_last() == seq![first] + rest.drop_last());
    }
}

/// The path of an entry lies under the base directory and the name of its
/// method, whatever its URL is.
pub proof fn lemma_dump_path_under_base(base: Seq<char>, method: Seq<char>, url: Seq<char>)
    ensures
        begins_with(dump_path(base, method, url), path_push(base, method)),
{
    let stripped = strip_schemes(url);
    let rest = stored_components(path_components(stripped)) + index_component(stripped);
    assert(dump_parts(method, url) == seq![method] + rest);
    lemma_push_each_first(base, method, rest);
    lemma_push_each_extends(path_push(base, method), rest);
}

/// Finds the end of the segment that starts at `from`.
fn segment_end_of(s: &Vec<char>, from: usize) -> (end: usize)
    requires
        from <= s.len(),
    ensures
        end == segment_end(s@, from as int),
        from <= end <= s.len(),
{
    let mut end: usize = from;
    while end < s.len() && s[end] != '/'
        invariant
            from <= end <= s.len(),
            segment_end(s@, from as int) == segment_end(s@, end as int),
        decreases s.len() - end,
    {
        end += 1;
    }
    end
}

/// Copies the characters of `s` from `from` up to `end`.
fn slice_of(s: &Vec<char>, from: usize, end: usize) -> (r: Vec<char>)
    requires
        from <= end <= s.len(),
    ensures
        r@ == s@.subrange(from as int, end as int),
{
    let mut r: Vec<char> = Vec::new();
    let mut i: usize = from;
    while i < end
        invariant
            from <= i <= end <= s.len(),
            r@ == s@.subrange(from as int, i as int),
        decreases end - i,
    {
        r.push(s[i]);
        i += 1;
    }
    r
}

/// Joins `component` to `path`.
pub fn path_push_of(path: &mut Vec<char>, component: &Vec<char>)
    ensures
        final(path)@ == path_push(old(path)@, component@),
{
    if path.len() > 0 && path[path.len() - 1] != '/' {
        path.push('/');
    }
    push_all(path, component);
}

/// The number of leading characters of `s` that fit into `bytes` bytes.
fn chars_within_of(s: &Vec<char>, bytes: usize) -> (n: usize)
    ensures
        n == chars_within(s@, bytes as nat),
        n <= s.len(),
{
    let mut i: usize = 0;
    let mut left: usize = bytes;
    assert(s@.skip(0) == s@);
    while i < s.len()
        invariant
            i <= s.len(),
            left <= bytes,
            chars_within(s@, bytes as nat) == i + chars_within(s@.skip(i as int), left as nat),
        decreases s.len() - i,
    {
        let width: usize = utf8_len_of(s[i]);
        if width > left {
            return i;
        }
        assert(s@.skip(i as int).skip(1) == s@.skip(i + 1));
        left -= width;
        i += 1;
    }
    i
}

/// Shortens `s` to `limit` bytes less the room for a digest, and appends an
/// underscore and `digest` in hexadecimal.
pub fn truncate_with(s: &str, limit: usize, digest: &[u8]) -> (r: String)
    requires
        limit >= DIGEST_CHARS,
    ensures
        r@ == truncated_with(s@, limit as nat, digest@),
        digest@.len() == 16 ==> utf8_size(r@) <= limit + 1,
{
    proof {
        if digest@.len() == 16 {
            lemma_truncated_size(s@, limit as nat, digest@);
        }
    }
    let chars = chars_of(s);
    let mut out: Vec<char> = Vec::new();
    let head = slice_of(&chars, 0, chars_within_of(&chars, limit - DIGEST_CHARS));
    push_all(&mut out, &head);
    out.push('_');
    push_hex(&mut out, digest);
    string_of(&out)
}

/// Shortens `s` to `limit` bytes less the room for a digest, and appends an
/// underscore and the digest of `s`.
pub fn uniquely_truncate(s: &str, limit: usize) -> (r: String)
    requires
        limit >= DIGEST_CHARS,
    ensures
        r@ == uniquely_truncated(s@, limit as nat),
        md5_digest(s@).len() == 16,
        utf8_size(r@) <= limit + 1,
        r@.len() == chars_within(s@, (limit - DIGEST_CHARS) as nat) + 33,
{
    let digest = md5_of(s);
    proof {
        lemma_truncated_size(s@, limit as nat, digest@);
    }
    truncate_with(s, limit, digest.as_slice())
}

/// The form in which `component` is written to disk. It never takes more
/// than one byte above the limit.
pub fn stored_component_of(component: Vec<char>) -> (r: Vec<char>)
    ensures
        r@ == stored_component(component@),
        utf8_size(r@) <= COMPONENT_LIMIT + 1,
{
    if longer_than(&component, COMPONENT_LIMIT) {
        let text = string_of(&component);
        chars_of(uniquely_truncate(text.as_str(), COMPONENT_LIMIT).as_str())
    } else {
        component
    }
}

/// The path under `base` at which the body of an entry with this method and
/// URL is kept. It lies under `base` and the name of the method, and none
/// of the components that the URL gives it takes more than one byte above
/// the limit.
pub fn dump_path_of(base: &str, method: HttpMethod, url: &str) -> (r: String)
    ensures
        r@ == dump_path(base@, method.name(), url@),
        begins_with(r@, path_push(base@, method.name())),
        components_fit(stored_components(path_components(strip_schemes(url@)))),
{
    proof {
        lemma_dump_path_under_base(base@, method.name(), url@);
    }
    let empty: Vec<char> = Vec::new();
    let without_http = replace_all_of(&chars_of(url), &chars_of("http://"), &empty);
    let s = replace_all_of(&without_http, &chars_of("https://"), &empty);
    let mut path = chars_of(base);
    let ghost mut done: Seq<Seq<char>> = Seq::empty();
    let ghost mut raw: Seq<Seq<char>> = Seq::empty();

    path_push_of(&mut path, &chars_of(method.as_str()));
    proof {
        lemma_push_each_push(base@, done, method.name());
        done = done.push(method.name());
        lemma_segment_end(s@, 0);
    }
    let first_end = segment_end_of(&s, 0);
    if first_end == 1 && s[0] == '.' {
        let lead: Vec<char> = vec!['.'];
        assert(lead@ == seq!['.']);
        assert(s@.subrange(0, 1) == seq!['.']);
        assert(utf8_size(seq!['.'].drop_last()) == 0);
        path_push_of(&mut path, &lead);
        proof {
            lemma_push_each_push(base@, done, lead@);
            done = done.push(lead@);
            raw = raw.push(lead@);
        }
    } else {
        assert(s@.subrange(0, first_end as int) != seq!['.']) by {
            if s@.subrange(0, first_end as int) == seq!['.'] {
                assert(s@.subrange(0, first_end as int)[0] == '.');
            }
        }
    }

    let mut from: usize = 0;
    while from < s.len()
        invariant
            from <= s.len(),
            path@ == push_each(base@, done),
            done == seq![method.name()] + stored_components(raw),
            raw + segments_from(s@, from as int) == path_components(s@),
            components_fit(stored_components(raw)),
        decreases s.len() - from,
    {
        proof {
            lemma_segment_end(s@, from as int);
        }
        let end = segment_end_of(&s, from);
        let segment = slice_of(&s, from, end);
        let is_dot = segment.len() == 1 && segment[0] == '.';
        assert(is_dot == (segment@ == seq!['.'])) by {
            if segment@.len() == 1 && segment@[0] == '.' {
                assert(segment@ == seq!['.']);
            }
        }
        if segment.len() > 0 && !is_dot {
            let ghost seg = segment@;
            let stored = stored_component_of(segment);
            path_push_of(&mut path, &stored);
            proof {
                lemma_push_each_push(base@, done, stored@);
                assert(raw + (seq![seg] + segments_from(s@, end + 1)) == raw.push(seg)
                    + segments_from(s@, end + 1));
                assert(stored_components(raw.push(seg)) == stored_components(raw).push(stored@));
                done = done.push(stored@);
                raw = raw.push(seg);
            }
        }
        if end < s.len() {
            from = end + 1;
        } else {
            from = end;
        }
    }
    if s.len() > 0 && s[s.len() - 1] == '/' {
        let index = chars_of("__index__");
        path_push_of(&mut path, &index);
        proof {
            lemma_push_each_push(base@, done, index@);
            assert(done.push(index@) == done + seq![index@]);
        }
    }
    string_of(&path)
}

} // verus!
