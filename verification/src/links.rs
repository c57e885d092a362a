//! Reading links from lines of text.
//!
//! A link is the word for a kind, then `/` or `:`, then an identifier of
//! letters and digits. It may stand anywhere in a line; the first one counts.

use vstd::prelude::*;
use vstd::slice::slice_subrange;
use crate::ids::{base62_value, digit_value, is_base62, ItemId};
use crate::kinds::LinkKind;
use crate::text::{chars_of, string_of, texts};

verus! {

/// The word by which a link names its kind.
pub open spec fn kind_word(kind: LinkKind) -> Seq<char> {
    match kind {
        LinkKind::Playlist => "playlist"@,
        LinkKind::Album => "album"@,
        LinkKind::Track => "track"@,
        LinkKind::Episode => "episode"@,
        LinkKind::Show => "show"@,
    }
}

/// Whether `c` may stand in an identifier: an ASCII letter or digit.
pub open spec fn is_id_char(c: char) -> bool {
    digit_value(c) is Some
}

/// Whether `c` parts the kind from the identifier.
pub open spec fn is_separator(c: char) -> bool {
    c == '/' || c == ':'
}

/// Whether `word` stands in `s` at position `i`.
pub open spec fn word_at(s: Seq<char>, i: int, word: Seq<char>) -> bool {
    0 <= i && i + word.len() <= s.len() && s.subrange(i, i + word.len()) == word
}

/// Whether a link of the given kind starts at position `i` of `s`.
pub open spec fn link_starts(s: Seq<char>, i: int, kind: LinkKind) -> bool {
    let n = kind_word(kind).len();
    word_at(s, i, kind_word(kind)) && i + n + 1 < s.len() && is_separator(s[i + n]) && is_id_char(
        s[i + n + 1],
    )
}

/// The kind of the link that starts at position `i` of `s`, if one does.
pub open spec fn kind_at(s: Seq<char>, i: int) -> Option<LinkKind> {
    if link_starts(s, i, LinkKind::Playlist) {
        Some(LinkKind::Playlist)
    } else if link_starts(s, i, LinkKind::Track) {
        Some(LinkKind::Track)
    } else if link_starts(s, i, LinkKind::Album) {
        Some(LinkKind::Album)
    } else if link_starts(s, i, LinkKind::Episode) {
        Some(LinkKind::Episode)
    } else if link_starts(s, i, LinkKind::Show) {
        Some(LinkKind::Show)
    } else {
        None
    }
}

/// The end of the longest run of identifier characters that starts at `from`.
pub open spec fn run_end(s: Seq<char>, from: int) -> int
    decreases s.len() - from,
{
    if 0 <= from < s.len() && is_id_char(s[from]) {
        run_end(s, from + 1)
    } else {
        from
    }
}

/// A link as a mathematical value: its kind and the text of its identifier.
pub struct LinkSpec {
    pub kind: LinkKind,
    pub id: Seq<char>,
}

/// The link that starts at position `i` of `s`, if one does. Its identifier
/// is the longest run of letters and digits after the separator.
pub open spec fn link_at(s: Seq<char>, i: int) -> Option<LinkSpec> {
    match kind_at(s, i) {
        Some(kind) => {
            let start = i + kind_word(kind).len() + 1;
            Some(LinkSpec { kind, id: s.subrange(start, run_end(s, start)) })
        },
        None => None,
    }
}

/// The first link of `s` that starts at position `i` or later.
pub open spec fn first_link_from(s: Seq<char>, i: int) -> Option<LinkSpec>
    decreases s.len() - i,
{
    if i < 0 || i >= s.len() {
        None
    } else {
        match link_at(s, i) {
            Some(link) => Some(link),
            None => first_link_from(s, i + 1),
        }
    }
}

/// The first link of `s`.
pub open spec fn first_link(s: Seq<char>) -> Option<LinkSpec> {
    first_link_from(s, 0)
}

proof fn lemma_run(s: Seq<char>, from: int)
    requires
        0 <= from <= s.len(),
    ensures
        from <= run_end(s, from) <= s.len(),
        forall|i: int| from <= i < run_end(s, from) ==> is_id_char(#[trigger] s[i]),
    decreases s.len() - from,
{
    if from < s.len() && is_id_char(s[from]) {
        lemma_run(s, from + 1);
    }
}

proof fn lemma_link_from(s: Seq<char>, i: int)
    requires
        0 <= i,
    ensures
        first_link_from(s, i) matches Some(link) ==> link.id.len() > 0 && is_base62(
            link.id,
        ),
    decreases s.len() - i,
{
    if i < s.len() {
        match kind_at(s, i) {
            Some(kind) => {
                let start = i + kind_word(kind).len() + 1;
                assert(link_starts(s, i, kind));
                lemma_run(s, start);
                lemma_run(s, start + 1);
                let id = s.subrange(start, run_end(s, start));
                assert forall|j: int| 0 <= j < id.len() implies (#[trigger] digit_value(
                    id[j],
                )) is Some by {
                    assert(is_id_char(s[start + j]));
                }
            },
            None => {
                lemma_link_from(s, i + 1);
            },
        }
    }
}

/// The identifier of a link is never empty and holds base-62 digits only.
pub proof fn law_link_identifier(s: Seq<char>)
    ensures
        first_link(s) matches Some(link) ==> link.id.len() > 0 && is_base62(link.id),
{
    lemma_link_from(s, 0);
}

/// A link read from a line: its kind and the text of its identifier.
#[derive(Clone, Debug, PartialEq, Eq)]
pub struct Link {
    pub kind: LinkKind,
    pub id: String,
}

impl View for Link {
    type V = LinkSpec;

    open spec fn view(&self) -> LinkSpec {
        LinkSpec { kind: self.kind, id: self.id@ }
    }
}

fn is_id(c: char) -> (r: bool)
    ensures
        r == is_id_char(c),
{
    ('0' <= c && c <= '9') || ('a' <= c && c <= 'z') || ('A' <= c && c <= 'Z')
}

fn has_word(s: &[char], i: usize, word: &[char]) -> (r: bool)
    ensures
        r == word_at(s@, i as int, word@),
{
    if word.len() > s.len() || i > s.len() - word.len() {
        return false;
    }
    let mut k: usize = 0;
    while k < word.len()
        invariant
            k <= word.len(),
            i + word.len() <= s.len(),
            forall|j: int| 0 <= j < k ==> s@[i + j] == word@[j],
        decreases word.len() - k,
    {
        if s[i + k] != word[k] {
            assert(s@.subrange(i as int, i + word.len())[k as int] != word@[k as int]);
            return false;
        }
        k += 1;
    }
    assert(s@.subrange(i as int, i + word.len()) =~= word@);
    true
}

fn starts_link(s: &[char], i: usize, kind: LinkKind) -> (r: bool)
    ensures
        r == link_starts(s@, i as int, kind),
{
    let word = chars_of(
        match kind {
            LinkKind::Playlist => "playlist",
            LinkKind::Album => "album",
            LinkKind::Track => "track",
            LinkKind::Episode => "episode",
            LinkKind::Show => "show",
        },
    );
    if !has_word(s, i, word.as_slice()) {
        return false;
    }
    let n = word.len();
    if s.len() - i - n < 2 {
        return false;
    }
    let sep = s[i + n];
    (sep == '/' || sep == ':') && is_id(s[i + n + 1])
}

fn link_kind_at(s: &[char], i: usize) -> (r: Option<LinkKind>)
    ensures
        r == kind_at(s@, i as int),
{
    if starts_link(s, i, LinkKind::Playlist) {
        Some(LinkKind::Playlist)
    } else if starts_link(s, i, LinkKind::Track) {
        Some(LinkKind::Track)
    } else if starts_link(s, i, LinkKind::Album) {
        Some(LinkKind::Album)
    } else if starts_link(s, i, LinkKind::Episode) {
        Some(LinkKind::Episode)
    } else if starts_link(s, i, LinkKind::Show) {
        Some(LinkKind::Show)
    } else {
        None
    }
}

fn end_of_run(s: &[char], from: usize) -> (r: usize)
    requires
        from <= s.len(),
    ensures
        r == run_end(s@, from as int),
        from <= r <= s.len(),
{
    let mut j = from;
    while j < s.len() && is_id(s[j])
        invariant
            from <= j <= s.len(),
            run_end(s@, from as int) == run_end(s@, j as int),
        decreases s.len() - j,
    {
        j += 1;
    }
    j
}

/// The first link in a line of characters.
pub fn find_link(s: &[char]) -> (r: Option<Link>)
    ensures
        r is Some <==> first_link(s@) is Some,
        r matches Some(link) ==> Some(link@) == first_link(s@),
{
    let mut i: usize = 0;
    while i < s.len()
        invariant
            i <= s.len(),
            first_link(s@) == first_link_from(s@, i as int),
        decreases s.len() - i,
    {
        match link_kind_at(s, i) {
            Some(kind) => {
                let ghost n = kind_word(kind).len();
                let word_len: usize = match kind {
                    LinkKind::Playlist => 8,
                    LinkKind::Episode => 7,
                    LinkKind::Album | LinkKind::Track => 5,
                    LinkKind::Show => 4,
                };
                proof {
                    reveal_strlit("playlist");
                    reveal_strlit("episode");
                    reveal_strlit("album");
                    reveal_strlit("track");
                    reveal_strlit("show");
                    assert(word_len == n);
                }
                let start = i + word_len + 1;
                let end = end_of_run(s, start);
                let id = string_of(slice_subrange(s, start, end));
                return Some(Link { kind, id });
            },
            None => {},
        }
        i += 1;
    }
    None
}

/// The first link in a line of text.
pub fn parse_link(line: &str) -> (r: Option<Link>)
    ensures
        r is Some <==> first_link(line@) is Some,
        r matches Some(link) ==> Some(link@) == first_link(line@),
{
    let chars = chars_of(line);
    find_link(chars.as_slice())
}

impl Link {
    /// The identifier that the link's text denotes; `None` where the number
    /// does not fit 128 bits.
    pub fn item_id(&self) -> (r: Option<ItemId>)
        ensures
            r is Some <==> is_base62(self.id@) && base62_value(self.id@)
                <= u128::MAX,
            r matches Some(id) ==> id.value() == base62_value(self.id@),
    {
        let chars = chars_of(self.id.as_str());
        ItemId::from_base62(chars.as_slice())
    }
}

/// White space: the characters with the Unicode property `White_Space`.
pub open spec fn is_space(c: char) -> bool {
    let u = c as u32;
    (0x09 <= u <= 0x0d) || u == 0x20 || u == 0x85 || u == 0xa0 || u == 0x1680 || (0x2000 <= u
        <= 0x200a) || u == 0x2028 || u == 0x2029 || u == 0x202f || u == 0x205f || u == 0x3000
}

/// `s` without the white space at its start.
pub open spec fn trim_start(s: Seq<char>) -> Seq<char>
    decreases s.len(),
{
    if s.len() > 0 && is_space(s.first()) {
        trim_start(s.drop_first())
    } else {
        s
    }
}

/// `s` without the white space at its end.
pub open spec fn trim_end(s: Seq<char>) -> Seq<char>
    decreases s.len(),
{
    if s.len() > 0 && is_space(s.last()) {
        trim_end(s.drop_last())
    } else {
        s
    }
}

/// `s` without the white space at its start and at its end.
pub open spec fn trimmed(s: Seq<char>) -> Seq<char> {
    trim_end(trim_start(s))
}

/// Whether a line is the sentinel that ends the input: the word `done`,
/// with nothing but white space around it.
pub open spec fn is_sentinel(line: Seq<char>) -> bool {
    trimmed(line) == "done"@
}

/// What to do with a line of input.
#[derive(Clone, Debug, PartialEq, Eq)]
pub enum LineAction {
    /// The line ends the input: read no further.
    Stop,
    /// The line names nothing: go on with the next.
    Skip,
    /// The line names this link.
    Expand(Link),
}

/// What a line of input asks for.
pub open spec fn action_for(line: Seq<char>) -> Option<Option<LinkSpec>> {
    if is_sentinel(line) {
        None
    } else {
        Some(first_link(line))
    }
}

/// The links that lines of input name, in order, up to the sentinel.
pub open spec fn links_of(lines: Seq<Seq<char>>) -> Seq<LinkSpec>
    decreases lines.len(),
{
    if lines.len() == 0 || is_sentinel(lines.first()) {
        Seq::empty()
    } else {
        match first_link(lines.first()) {
            Some(link) => seq![link] + links_of(lines.drop_first()),
            None => links_of(lines.drop_first()),
        }
    }
}

fn is_white(c: char) -> (r: bool)
    ensures
        r == is_space(c),
{
    let u = c as u32;
    (0x09 <= u && u <= 0x0d) || u == 0x20 || u == 0x85 || u == 0xa0 || u == 0x1680 || (0x2000 <= u
        && u <= 0x200a) || u == 0x2028 || u == 0x2029 || u == 0x202f || u == 0x205f || u == 0x3000
}

/// Whether a line of characters is the sentinel that ends the input.
pub fn is_done(s: &[char]) -> (r: bool)
    ensures
        r == is_sentinel(s@),
{
    let n = s.len();
    let mut a: usize = 0;
    assert(s@.subrange(0, n as int) == s@);
    while a < n && is_white(s[a])
        invariant
            a <= n,
            n == s.len(),
            trim_start(s@) == trim_start(s@.subrange(a as int, n as int)),
        decreases n - a,
    {
        assert(s@.subrange(a as int, n as int).drop_first() == s@.subrange(a + 1, n as int));
        a += 1;
    }
    let mut b: usize = n;
    while b > a && is_white(s[b - 1])
        invariant
            a <= b <= n,
            n == s.len(),
            trimmed(s@) == trim_end(s@.subrange(a as int, b as int)),
        decreases b,
    {
        assert(s@.subrange(a as int, b as int).drop_last() == s@.subrange(a as int, b - 1));
        b -= 1;
    }
    proof {
        reveal_strlit("done");
        let t = s@.subrange(a as int, b as int);
        assert(trimmed(s@) == t);
        if b - a == 4 {
            if t[0] == 'd' && t[1] == 'o' && t[2] == 'n' && t[3] == 'e' {
                assert(t =~= "done"@);
            }
        }
    }
    b - a == 4 && s[a] == 'd' && s[a + 1] == 'o' && s[a + 2] == 'n' && s[a + 3] == 'e'
}

/// Decides what to do with a line of input: stop at the sentinel, expand the
/// first link of a line that holds one, skip any other line.
pub fn classify_line(line: &str) -> (r: LineAction)
    ensures
        r is Stop <==> is_sentinel(line@),
        !is_sentinel(line@) ==> (r is Skip <==> first_link(line@) is None),
        r matches LineAction::Expand(link) ==> Some(link@) == first_link(line@),
{
    let chars = chars_of(line);
    if is_done(chars.as_slice()) {
        LineAction::Stop
    } else {
        match find_link(chars.as_slice()) {
            Some(link) => LineAction::Expand(link),
            None => LineAction::Skip,
        }
    }
}

/// The views of a list of links.
pub open spec fn link_specs(v: Seq<Link>) -> Seq<LinkSpec> {
    v.map_values(|l: Link| l@)
}

/// Reads the links that lines of input name: one link for each line that
/// holds one, in order, from the lines before the sentinel.
pub fn collect_links(lines: &[String]) -> (r: Vec<Link>)
    ensures
        link_specs(r@) == links_of(texts(lines@)),
{
    let ghost all = texts(lines@);
    let mut found: Vec<Link> = Vec::new();
    let mut i: usize = 0;
    proof {
        assert(all.subrange(0, all.len() as int) == all);
        assert(link_specs(found@) + links_of(all) == links_of(all));
    }
    while i < lines.len()
        invariant
            i <= lines.len(),
            all == texts(lines@),
            links_of(all) == link_specs(found@) + links_of(all.subrange(i as int, all.len() as int)),
        decreases lines.len() - i,
    {
        let ghost rest = all.subrange(i as int, all.len() as int);
        assert(rest.first() == lines@[i as int]@);
        assert(rest.drop_first() == all.subrange(i + 1, all.len() as int));
        match classify_line(lines[i].as_str()) {
            LineAction::Stop => {
                assert(links_of(rest) == Seq::<LinkSpec>::empty());
                assert(link_specs(found@) + Seq::<LinkSpec>::empty() == link_specs(found@));
                return found;
            },
            LineAction::Skip => {},
            LineAction::Expand(link) => {
                let ghost before = link_specs(found@);
                found.push(link);
                assert(link_specs(found@) == before.push(link@));
                assert(before + (seq![link@] + links_of(rest.drop_first())) == before.push(link@)
                    + links_of(rest.drop_first()));
            },
        }
        i += 1;
    }
    assert(links_of(all.subrange(i as int, all.len() as int)) == Seq::<LinkSpec>::empty());
    assert(link_specs(found@) + Seq::<LinkSpec>::empty() == link_specs(found@));
    found
}

} // verus!
