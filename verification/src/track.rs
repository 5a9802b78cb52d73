//! Tracks: a title, a file and a length; which files are tracks; the order of
//! the track list.

use vstd::prelude::*;
use vstd::utf8::*;
use crate::text::chars_of;
use crate::time::Duration;

verus! {

/// A playable file and what the list shows of it.
pub struct Track {
    pub title: String,
    pub path: String,
    pub duration: Duration,
}

/// The title that a file stem gives: the stem itself, or nothing when the path
/// has none.
pub open spec fn title_from_stem(stem: Option<Seq<char>>) -> Seq<char> {
    match stem {
        Some(s) => s,
        None => Seq::empty(),
    }
}

// ---------------------------------------------------------------------------
// File names
// ---------------------------------------------------------------------------

/// The characters of a text, when there is one.
pub open spec fn opt_chars(o: Option<String>) -> Option<Seq<char>> {
    match o {
        Some(s) => Some(s@),
        None => None,
    }
}

/// The position of the last `c` in `s`, or -1 when there is none.
pub open spec fn last_index_of(s: Seq<char>, c: char) -> int
    decreases s.len(),
{
    if s.len() == 0 {
        -1
    } else if s.last() == c {
        s.len() - 1
    } else {
        last_index_of(s.drop_last(), c)
    }
}

/// The text after the last `/` of `path` (all of it when it has none).
pub open spec fn last_piece(path: Seq<char>) -> Seq<char> {
    path.subrange(last_index_of(path, '/') + 1, path.len() as int)
}

/// A path whose file name is read alike on every platform: no `\`, no `:` as
/// its second character (a drive prefix), not beginning with `//`, not ending in
/// `/`, and not ending in a `.` or `..` piece. Its file name is the text after
/// its last `/`.
pub open spec fn plain(path: Seq<char>) -> bool {
    &&& !path.contains('\\')
    &&& !(path.len() >= 2 && path[1] == ':')
    &&& !(path.len() >= 2 && path[0] == '/' && path[1] == '/')
    &&& !(path.len() > 0 && path.last() == '/')
    &&& last_piece(path) != seq!['.']
    &&& last_piece(path) != seq!['.', '.']
}

/// The file name of a plain path: its last piece, when that is not empty.
pub open spec fn file_name_of(path: Seq<char>) -> Option<Seq<char>> {
    if last_piece(path).len() == 0 {
        None
    } else {
        Some(last_piece(path))
    }
}

/// The extension of a plain path: what follows the last dot of its file name;
/// none when there is no dot, or when the only dot begins the name.
pub open spec fn name_extension(path: Seq<char>) -> Option<Seq<char>> {
    match file_name_of(path) {
        None => None,
        Some(name) => {
            let k = last_index_of(name, '.');
            if k <= 0 {
                None
            } else {
                Some(name.subrange(k + 1, name.len() as int))
            }
        },
    }
}

/// The stem of a plain path: its file name up to the last dot; all of the name
/// when there is no dot, or when the only dot begins the name.
pub open spec fn name_stem(path: Seq<char>) -> Option<Seq<char>> {
    match file_name_of(path) {
        None => None,
        Some(name) => {
            let k = last_index_of(name, '.');
            if k <= 0 {
                Some(name)
            } else {
                Some(name.subrange(0, k))
            }
        },
    }
}

/// Whether `part` stands somewhere in `path`, in one piece.
pub open spec fn is_piece_of(part: Seq<char>, path: Seq<char>) -> bool {
    exists|i: int, j: int| 0 <= i <= j <= path.len() && #[trigger] path.subrange(i, j) == part
}

/// The file stem of `path` (its file name without the extension), as
/// `std::path::Path::file_stem` finds it.
///
/// The documentation of `file_stem` gives the stem as the file name (the final
/// component of the path) without the part from its final dot, or the whole
/// name when it has no dot or only a leading one. So a stem stands in the path
/// in one piece and holds no `/` (a separator on every platform); for a plain
/// path, whose final component is the text after its last `/`, it is
/// `name_stem`. Which other characters separate components (such as `\`) is a
/// property of the platform and is not stated.
#[verifier::external_body]
fn file_stem(path: &str) -> (stem: Option<String>)
    ensures
        stem matches Some(s) ==> is_piece_of(s@, path@) && !s@.contains('/'),
        plain(path@) ==> opt_chars(stem) == name_stem(path@),
{
    match std::path::Path::new(path).file_stem() {
        Some(stem) => Some(stem.to_string_lossy().into_owned()),
        None => None,
    }
}

/// Whether `ext` stands in `path` at position `i`, right after a dot.
pub open spec fn dotted_piece_at(path: Seq<char>, ext: Seq<char>, i: int) -> bool {
    &&& 1 <= i
    &&& i + ext.len() <= path.len()
    &&& path[i - 1] == '.'
    &&& path.subrange(i, i + ext.len()) == ext
}

/// Whether `ext` stands somewhere in `path` right after a dot.
pub open spec fn has_dotted_piece(path: Seq<char>, ext: Seq<char>) -> bool {
    exists|i: int| dotted_piece_at(path, ext, i)
}

/// The extension of `path` (what follows the last dot of its file name), as
/// `std::path::Path::extension` finds it.
///
/// The documentation of `extension` gives it as the portion of the file name
/// (the final component of the path) after its final dot, and none when the
/// name has no dot or only a leading one. So an extension stands in the path
/// right after a dot; for a plain path, whose final component is the text
/// after its last `/`, it is `name_extension`. Which other characters separate
/// components (such as `\`) is a property of the platform and is not stated.
#[verifier::external_body]
fn file_extension(path: &str) -> (ext: Option<String>)
    ensures
        ext matches Some(e) ==> has_dotted_piece(path@, e@),
        plain(path@) ==> opt_chars(ext) == name_extension(path@),
{
    match std::path::Path::new(path).extension() {
        Some(ext) => Some(ext.to_string_lossy().into_owned()),
        None => None,
    }
}

impl Track {
    /// The track of the file at `path`, whose length has been read as `duration`;
    /// its title is the file stem of the path (empty when there is none): a
    /// piece of the path without `/`, and for a plain path its `name_stem`.
    pub fn new(path: String, duration: Duration) -> (t: Track)
        ensures
            t.path == path,
            t.duration == duration,
            is_piece_of(t.title@, path@),
            !t.title@.contains('/'),
            plain(path@) ==> t.title@ == title_from_stem(name_stem(path@)),
    {
        let stem = file_stem(path.as_str());
        proof {
            assert(path@.subrange(0, 0) =~= Seq::<char>::empty());
        }
        Track::with_stem(path, stem, duration)
    }

    /// The track of the file at `path` whose file stem is `stem`: titled by the
    /// stem, or untitled when there is none.
    pub fn with_stem(path: String, stem: Option<String>, duration: Duration) -> (t: Track)
        ensures
            t.path == path,
            t.duration == duration,
            t.title@ == title_from_stem(
                match stem {
                    Some(s) => Some(s@),
                    None => None,
                },
            ),
    {
        let title = match stem {
            Some(s) => s,
            None => String::new(),
        };
        Track { title, path, duration }
    }
}

/// Whether two texts hold the same characters.
pub fn same_text(a: &str, b: &str) -> (r: bool)
    ensures
        r == (a@ == b@),
{
    let x = chars_of(a);
    let y = chars_of(b);
    if x.len() != y.len() {
        return false;
    }
    let mut i: usize = 0;
    while i < x.len()
        invariant
            x@ == a@,
            y@ == b@,
            x.len() == y.len(),
            i <= x.len(),
            forall|k: int| 0 <= k < i ==> x@[k] == y@[k],
        decreases x.len() - i,
    {
        if x[i] != y[i] {
            return false;
        }
        i = i + 1;
    }
    assert(a@ =~= b@);
    true
}

/// Whether a file with extension `ext` is one the player lists: `mp3`, `wav`,
/// `flac` or `ogg`, in lower case.
pub fn is_audio_extension(ext: &str) -> (r: bool)
    ensures
        r == (ext@ == "mp3"@ || ext@ == "wav"@ || ext@ == "flac"@ || ext@ == "ogg"@),
{
    same_text(ext, "mp3") || same_text(ext, "wav") || same_text(ext, "flac") || same_text(
        ext,
        "ogg",
    )
}

/// Whether the file at `path` is one the player lists, judged by the extension
/// that `std::path::Path::extension` finds (none counts as the empty one).
///
/// A path that is listed holds, right after a dot, one of the extensions that
/// `is_audio_extension` accepts; a plain path is listed exactly when the
/// extension of its file name is one of them.
pub fn is_audio_path(path: &str) -> (r: bool)
    ensures
        r ==> has_dotted_piece(path@, "mp3"@) || has_dotted_piece(path@, "wav"@)
            || has_dotted_piece(path@, "flac"@) || has_dotted_piece(path@, "ogg"@),
        plain(path@) ==> (r == (name_extension(path@) matches Some(e) && (e == "mp3"@ || e
            == "wav"@ || e == "flac"@ || e == "ogg"@))),
{
    match file_extension(path) {
        Some(ext) => is_audio_extension(ext.as_str()),
        None => {
            let none = "";
            proof {
                reveal_strlit("");
                reveal_strlit("mp3");
                reveal_strlit("wav");
                reveal_strlit("flac");
                reveal_strlit("ogg");
                assert(none@.len() == 0);
                assert("mp3"@.len() == 3 && "wav"@.len() == 3 && "flac"@.len() == 4
                    && "ogg"@.len() == 3);
            }
            is_audio_extension(none)
        },
    }
}


// ---------------------------------------------------------------------------
// The order of the track list
// ---------------------------------------------------------------------------

/// Lexicographic order on bytes: `a` is at most `b`.
pub open spec fn bytes_le(a: Seq<u8>, b: Seq<u8>) -> bool
    decreases a.len(),
{
    if a.len() == 0 {
        true
    } else if b.len() == 0 {
        false
    } else if a[0] != b[0] {
        a[0] < b[0]
    } else {
        bytes_le(a.drop_first(), b.drop_first())
    }
}

/// The order of titles: by the bytes of their UTF-8 encoding, as strings compare.
pub open spec fn title_le(a: Seq<char>, b: Seq<char>) -> bool {
    bytes_le(encode_utf8(a), encode_utf8(b))
}

/// Tracks in order of their titles.
pub open spec fn sorted_by_title(s: Seq<Track>) -> bool {
    forall|i: int, j: int| 0 <= i < j < s.len() ==> title_le(s[i].title@, s[j].title@)
}

/// Whether a track has the title `t`.
pub open spec fn titled(t: Seq<char>) -> spec_fn(Track) -> bool {
    |x: Track| x.title@ == t
}

/// `r` holds the tracks of `s`, and tracks of equal title keep their order.
pub open spec fn stable_rearrangement(r: Seq<Track>, s: Seq<Track>) -> bool {
    forall|t: Seq<char>| #[trigger] r.filter(titled(t)) == s.filter(titled(t))
}

pub proof fn lemma_bytes_le_reflexive(a: Seq<u8>)
    ensures
        bytes_le(a, a),
    decreases a.len(),
{
    if a.len() > 0 {
        lemma_bytes_le_reflexive(a.drop_first());
    }
}

pub proof fn lemma_bytes_le_total(a: Seq<u8>, b: Seq<u8>)
    ensures
        bytes_le(a, b) || bytes_le(b, a),
    decreases a.len(),
{
    if a.len() > 0 && b.len() > 0 && a[0] == b[0] {
        lemma_bytes_le_total(a.drop_first(), b.drop_first());
    }
}

pub proof fn lemma_bytes_le_transitive(a: Seq<u8>, b: Seq<u8>, c: Seq<u8>)
    requires
        bytes_le(a, b),
        bytes_le(b, c),
    ensures
        bytes_le(a, c),
    decreases a.len(),
{
    if a.len() > 0 && b.len() > 0 && c.len() > 0 && a[0] == b[0] && b[0] == c[0] {
        lemma_bytes_le_transitive(a.drop_first(), b.drop_first(), c.drop_first());
    }
}

pub proof fn lemma_bytes_le_antisymmetric(a: Seq<u8>, b: Seq<u8>)
    requires
        bytes_le(a, b),
        bytes_le(b, a),
    ensures
        a == b,
    decreases a.len(),
{
    if a.len() > 0 && b.len() > 0 {
        lemma_bytes_le_antisymmetric(a.drop_first(), b.drop_first());
        assert(a =~= seq![a[0]] + a.drop_first());
        assert(b =~= seq![b[0]] + b.drop_first());
    } else {
        assert(a =~= b);
    }
}

/// The title order is a total order: reflexive, total, transitive and
/// antisymmetric.
pub proof fn lemma_title_order(a: Seq<char>, b: Seq<char>, c: Seq<char>)
    ensures
        title_le(a, a),
        title_le(a, b) || title_le(b, a),
        title_le(a, b) && title_le(b, c) ==> title_le(a, c),
        title_le(a, b) && title_le(b, a) ==> a == b,
{
    lemma_bytes_le_reflexive(encode_utf8(a));
    lemma_bytes_le_total(encode_utf8(a), encode_utf8(b));
    if title_le(a, b) && title_le(b, c) {
        lemma_bytes_le_transitive(encode_utf8(a), encode_utf8(b), encode_utf8(c));
    }
    if title_le(a, b) && title_le(b, a) {
        lemma_bytes_le_antisymmetric(encode_utf8(a), encode_utf8(b));
        encode_utf8_decode_utf8(a);
        encode_utf8_decode_utf8(b);
    }
}

/// Whether title `a` comes no later than title `b` (as `String`'s order has it).
pub fn title_le_exec(a: &String, b: &String) -> (r: bool)
    ensures
        r == title_le(a@, b@),
{
    let x = a.as_str().as_bytes();
    let y = b.as_str().as_bytes();
    let mut i: usize = 0;
    assert(x@.skip(0) =~= x@);
    assert(y@.skip(0) =~= y@);
    while i < x.len() && i < y.len()
        invariant
            x@ == encode_utf8(a@),
            y@ == encode_utf8(b@),
            i <= x.len(),
            i <= y.len(),
            bytes_le(x@, y@) == bytes_le(x@.skip(i as int), y@.skip(i as int)),
        decreases x.len() - i,
    {
        if x[i] != y[i] {
            return x[i] < y[i];
        }
        assert(x@.skip(i as int).drop_first() =~= x@.skip(i + 1));
        assert(y@.skip(i as int).drop_first() =~= y@.skip(i + 1));
        i = i + 1;
    }
    i == x.len()
}

/// The tracks ordered by title; tracks of equal title keep the order they had.
pub fn sort_by_title(tracks: Vec<Track>) -> (r: Vec<Track>)
    ensures
        r@.len() == tracks@.len(),
        sorted_by_title(r@),
        stable_rearrangement(r@, tracks@),
        r@.to_multiset() == tracks@.to_multiset(),
{
    let ghost orig = tracks@;
    let mut rest = tracks;
    let mut r: Vec<Track> = Vec::new();
    let mut k: usize = 0;
    let n = rest.len();
    while k < n
        invariant
            n == orig.len(),
            k <= n,
            rest@ == orig.skip(k as int),
            r@.len() == k,
            sorted_by_title(r@),
            forall|t: Seq<char>| #[trigger] r@.filter(titled(t)) == orig.take(k as int).filter(titled(t)),
        decreases n - k,
    {
        let x = rest.remove(0);
        assert(x == orig[k as int]);
        assert(rest@ =~= orig.skip(k + 1));
        let mut j: usize = 0;
        while j < r.len() && title_le_exec(&r[j].title, &x.title)
            invariant
                j <= r@.len(),
                forall|i: int| 0 <= i < j ==> title_le(#[trigger] r@[i].title@, x.title@),
            decreases r@.len() - j,
        {
            j = j + 1;
        }
        let ghost before = r@;
        proof {
            // everything from `j` on comes strictly after `x`
            assert forall|i: int| j <= i < before.len() implies !title_le(
                #[trigger] before[i].title@,
                x.title@,
            ) by {
                if title_le(before[i].title@, x.title@) {
                    lemma_title_order(before[j as int].title@, before[i].title@, x.title@);
                }
            }
        }
        r.insert(j, x);
        proof {
            let after = r@;
            assert(after =~= before.insert(j as int, x));
            assert forall|a: int, b: int| 0 <= a < b < after.len() implies title_le(
                after[a].title@,
                after[b].title@,
            ) by {
                if a < j && b == j {
                } else if a == j {
                    lemma_title_order(x.title@, before[b - 1].title@, x.title@);
                } else if b > j && a < j {
                    lemma_title_order(before[a].title@, x.title@, before[b - 1].title@);
                    lemma_title_order(x.title@, before[b - 1].title@, x.title@);
                } else if b < j {
                } else {
                    assert(a > j);
                }
            }
            assert(orig.take(k + 1) =~= orig.take(k as int).push(x));
            assert forall|t: Seq<char>| #[trigger] after.filter(titled(t)) == orig.take(k + 1).filter(
                titled(t),
            ) by {
                let p = titled(t);
                let head = before.take(j as int);
                let tail = before.skip(j as int);
                assert(before =~= head + tail);
                assert(after =~= head.push(x) + tail);
                Seq::filter_distributes_over_add(head, tail, p);
                Seq::filter_distributes_over_add(head.push(x), tail, p);
                head.lemma_filter_push(x, p);
                orig.take(k as int).lemma_filter_push(x, p);
                if p(x) {
                    assert forall|i: int| 0 <= i < tail.len() implies !p(#[trigger] tail[i]) by {
                        lemma_title_order(tail[i].title@, x.title@, x.title@);
                    }
                    tail.lemma_all_neg_filter_empty(p);
                    assert(tail.filter(p) =~= Seq::<Track>::empty());
                    assert(head.filter(p) + tail.filter(p) =~= head.filter(p));
                    assert(head.filter(p).push(x) + tail.filter(p) =~= head.filter(p).push(x));
                }
            }
        }
        k = k + 1;
    }
    assert(orig.take(n as int) =~= orig);
    proof {
        lemma_stable_rearrangement_is_permutation(r@, orig);
    }
    r
}


proof fn lemma_count_through_filter(s: Seq<Track>, p: spec_fn(Track) -> bool, x: Track)
    requires
        p(x),
    ensures
        s.filter(p).to_multiset().count(x) == s.to_multiset().count(x),
    decreases s.len(),
{
    broadcast use vstd::seq_lib::group_to_multiset_ensures;

    reveal(Seq::filter);
    if s.len() > 0 {
        let rest = s.drop_last();
        lemma_count_through_filter(rest, p, x);
        assert(s =~= rest.push(s.last()));
        rest.lemma_filter_push(s.last(), p);
    } else {
        assert(s.filter(p) =~= s);
    }
}

/// A stable rearrangement holds exactly the tracks it rearranges: each track
/// occurs in it as often as in the original.
pub proof fn lemma_stable_rearrangement_is_permutation(r: Seq<Track>, s: Seq<Track>)
    requires
        stable_rearrangement(r, s),
    ensures
        r.to_multiset() =~= s.to_multiset(),
{
    assert forall|x: Track| r.to_multiset().count(x) == s.to_multiset().count(x) by {
        let p = titled(x.title@);
        assert(r.filter(p) == s.filter(p));
        lemma_count_through_filter(r, p, x);
        lemma_count_through_filter(s, p, x);
    }
}

// ---------------------------------------------------------------------------
// Track lengths
// ---------------------------------------------------------------------------

/// The frames and the sample rate of a probed track (what symphonia's probe
/// reads from the default track's codec parameters), when both are known.
pub open spec fn probe_lengths(p: Option<(Option<u64>, Option<u32>)>) -> Option<(u64, u32)> {
    match p {
        Some((Some(frames), Some(rate))) => Some((frames, rate)),
        _ => None,
    }
}

/// The frames and the sample rate of a probed track, when both are known.
pub fn length_from_probe(p: Option<(Option<u64>, Option<u32>)>) -> (r: Option<(u64, u32)>)
    ensures
        r == probe_lengths(p),
{
    match p {
        Some((Some(frames), Some(rate))) => Some((frames, rate)),
        _ => None,
    }
}

} // verus!
