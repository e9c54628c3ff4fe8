use vstd::prelude::*;

use crate::error::{Error, Result};
use crate::filename::{encode_path, relative_path_of, segment_allowed, segment_ok};
use crate::id::{human_date_of, Id};
use crate::text::{
    chars_of, join, join_with, lemma_pieces_join, pieces, split_pieces, string_of, views,
};
use crate::yaml::{entry_views, read_yaml_entries, write_yaml_entries, yaml_entries_of, yaml_text_of};

verus! {

/// What `slug::slugify` makes of a title.
pub uninterp spec fn slug_of(title: Seq<char>) -> Seq<char>;

/// What `slug::slugify` documents of its result: only `a-z`, `0-9` and `-`, no two
/// `-` in a row, and no `-` first or last.
pub open spec fn slug_shaped(s: Seq<char>) -> bool {
    &&& forall|i: int|
        0 <= i < s.len() ==> ('a' <= #[trigger] s[i] <= 'z' || '0' <= s[i] <= '9' || s[i] == '-')
    &&& forall|i: int| 0 <= i < s.len() - 1 ==> !(#[trigger] s[i] == '-' && s[i + 1] == '-')
    &&& s.len() > 0 ==> s[0] != '-' && s.last() != '-'
}

/// Relies on `slug::slugify`, and on what its documentation states of the result.
#[verifier::external_body]
fn slugify(title: &str) -> (r: String)
    ensures
        r@ == slug_of(title@),
        slug_shaped(r@),
{
    slug::slugify(title)
}

/// The keys of the front matter's YAML mapping.
pub open spec fn title_key() -> Seq<char> {
    seq!['t', 'i', 't', 'l', 'e']
}

pub open spec fn date_key() -> Seq<char> {
    seq!['d', 'a', 't', 'e']
}

pub open spec fn keywords_key() -> Seq<char> {
    seq!['k', 'e', 'y', 'w', 'o', 'r', 'd', 's']
}

/// The value of the first entry with key `key`.
pub open spec fn lookup(entries: Seq<(Seq<char>, Seq<char>)>, key: Seq<char>) -> Option<Seq<char>>
    decreases entries.len(),
{
    if entries.len() == 0 {
        None
    } else if entries[0].0 == key {
        Some(entries[0].1)
    } else {
        lookup(entries.drop_first(), key)
    }
}

/// The front matter of a note, as plain values.
pub struct FrontMatterView {
    pub title: Seq<char>,
    pub date: Seq<char>,
    pub keywords: Seq<char>,
}

/// The front matter held by YAML entries: present when all three keys are.
pub open spec fn front_matter_of_entries(
    entries: Seq<(Seq<char>, Seq<char>)>,
) -> Option<FrontMatterView> {
    let t = lookup(entries, title_key());
    let d = lookup(entries, date_key());
    let k = lookup(entries, keywords_key());
    if t is Some && d is Some && k is Some {
        Some(FrontMatterView { title: t->Some_0, date: d->Some_0, keywords: k->Some_0 })
    } else {
        None
    }
}

/// The front matter that a YAML text holds.
pub open spec fn front_matter_of(text: Seq<char>) -> Option<FrontMatterView> {
    match yaml_entries_of(text) {
        Some(entries) => front_matter_of_entries(entries),
        None => None,
    }
}

/// The YAML entries of a front matter: title, date and keywords, in this order.
pub open spec fn entries_of(fm: FrontMatterView) -> Seq<(Seq<char>, Seq<char>)> {
    seq![(title_key(), fm.title), (date_key(), fm.date), (keywords_key(), fm.keywords)]
}

/// The delimiter line of a front matter block.
pub open spec fn delimiter() -> Seq<char> {
    seq!['-', '-', '-', '\n']
}

/// Whether a delimiter line starts at index `i` of `s`.
pub open spec fn delimiter_at(s: Seq<char>, i: int) -> bool {
    0 <= i && i + 4 <= s.len() && s.subrange(i, i + 4) == delimiter()
}

/// Index of the first delimiter at or after `from`, or the length of `s` when there is none.
pub open spec fn next_delimiter(s: Seq<char>, from: int) -> int
    decreases s.len() - from,
{
    if from < 0 || from + 4 > s.len() {
        s.len() as int
    } else if delimiter_at(s, from) {
        from
    } else {
        next_delimiter(s, from + 1)
    }
}

/// The YAML block and the body of a note's text: the text starts with a delimiter line,
/// the block runs to the next one, and the body is all that follows it.
pub open spec fn frame_of(s: Seq<char>) -> Option<(Seq<char>, Seq<char>)> {
    let e = next_delimiter(s, 4);
    if delimiter_at(s, 0) && delimiter_at(s, e) {
        Some((s.subrange(4, e), s.subrange(e + 4, s.len() as int)))
    } else {
        None
    }
}

/// The front matter of a note.
///
/// `keywords` holds the keywords separated by spaces, so no keyword holds a space.
#[derive(Debug, Clone, PartialEq, Eq, PartialOrd, Ord)]
pub struct FrontMatter {
    title: String,
    date: String,
    keywords: String,
}

impl View for FrontMatter {
    type V = FrontMatterView;

    closed spec fn view(&self) -> FrontMatterView {
        FrontMatterView { title: self.title@, date: self.date@, keywords: self.keywords@ }
    }
}

impl FrontMatter {
    pub fn title(&self) -> (r: &str)
        ensures
            r@ == self@.title,
    {
        self.title.as_str()
    }

    /// The human-readable date.
    pub fn date(&self) -> (r: &str)
        ensures
            r@ == self@.date,
    {
        self.date.as_str()
    }

    /// The keywords: the pieces of the keywords field between spaces, and none when the
    /// field is empty.
    pub fn keywords(&self) -> (r: Vec<String>)
        ensures
            views(r@) == pieces(self@.keywords, ' '),
            self@.keywords.len() == 0 ==> r@.len() == 0,
    {
        let r = split_pieces(self.keywords.as_str(), ' ');
        assert(views(r@).len() == r@.len());
        r
    }

    /// The YAML text of the front matter: title, date and keywords, in this order.
    pub fn dump(&self) -> (r: String)
        ensures
            r@ == yaml_text_of(entries_of(self@)),
    {
        let entries = self.entries();
        write_yaml_entries(&entries)
    }

    fn entries(&self) -> (r: Vec<(String, String)>)
        ensures
            entry_views(r@) == entries_of(self@),
    {
        let mut r: Vec<(String, String)> = Vec::new();
        r.push((String::from_str("title"), self.title.clone()));
        r.push((String::from_str("date"), self.date.clone()));
        r.push((String::from_str("keywords"), self.keywords.clone()));
        proof {
            reveal_strlit("title");
            reveal_strlit("date");
            reveal_strlit("keywords");
        }
        assert("title"@ =~= title_key());
        assert("date"@ =~= date_key());
        assert("keywords"@ =~= keywords_key());
        assert(entry_views(r@) =~= entries_of(self@));
        r
    }

    /// The slug of the title.
    pub fn slug(&self) -> (r: String)
        ensures
            r@ == slug_of(self@.title),
            slug_shaped(r@),
    {
        slugify(self.title.as_str())
    }

    /// Reads a front matter from YAML: a mapping with at least the keys `title`, `date`
    /// and `keywords`, whose values are scalars.
    pub fn parse(front_matter: &str) -> (r: Result<FrontMatter>)
        ensures
            r is Ok <==> front_matter_of(front_matter@) is Some,
            r matches Ok(fm) ==> fm@ == front_matter_of(front_matter@)->Some_0,
            r matches Err(e) ==> e is ParseError,
    {
        match read_yaml_entries(front_matter) {
            Ok(entries) => FrontMatter::from_entries(&entries),
            Err(reason) => {
                let mut m = String::from_str("could not deserialize front matter\n");
                m.append(front_matter);
                m.push('\n');
                m.append(reason.as_str());
                Err(Error::ParseError(m))
            },
        }
    }

    /// The front matter held by YAML entries: each field is the value of the first
    /// entry with its key; fails when a key is missing.
    pub fn from_entries(entries: &Vec<(String, String)>) -> (r: Result<FrontMatter>)
        ensures
            r is Ok <==> front_matter_of_entries(entry_views(entries@)) is Some,
            r matches Ok(fm) ==> fm@ == front_matter_of_entries(entry_views(entries@))->Some_0,
            r matches Err(e) ==> e is ParseError,
    {
        let title_key_s = String::from_str("title");
        let date_key_s = String::from_str("date");
        let keywords_key_s = String::from_str("keywords");
        proof {
            reveal_strlit("title");
            reveal_strlit("date");
            reveal_strlit("keywords");
        }
        assert(title_key_s@ =~= title_key());
        assert(date_key_s@ =~= date_key());
        assert(keywords_key_s@ =~= keywords_key());
        let title = lookup_entry(entries, &title_key_s);
        let date = lookup_entry(entries, &date_key_s);
        let keywords = lookup_entry(entries, &keywords_key_s);
        match (title, date, keywords) {
            (Some(title), Some(date), Some(keywords)) => Ok(FrontMatter { title, date, keywords }),
            _ => Err(Error::ParseError(String::from_str("front matter needs title, date and keywords"))),
        }
    }
}

/// The value of the first entry with key `key`.
fn lookup_entry(entries: &Vec<(String, String)>, key: &String) -> (r: Option<String>)
    ensures
        r matches Some(v) ==> lookup(entry_views(entries@), key@) == Some(v@),
        r is None ==> lookup(entry_views(entries@), key@) is None,
{
    let mut i: usize = 0;
    assert(entry_views(entries@).subrange(0, entries@.len() as int) =~= entry_views(entries@));
    while i < entries.len()
        invariant
            i <= entries@.len(),
            lookup(entry_views(entries@), key@) == lookup(
                entry_views(entries@).subrange(i as int, entries@.len() as int),
                key@,
            ),
        decreases entries@.len() - i,
    {
        let ghost rest = entry_views(entries@).subrange(i as int, entries@.len() as int);
        assert(rest[0] == (entries@[i as int].0@, entries@[i as int].1@));
        if entries[i].0 == *key {
            return Some(entries[i].1.clone());
        }
        assert(rest.drop_first() =~= entry_views(entries@).subrange(i + 1, entries@.len() as int));
        i += 1;
    }
    assert(entry_views(entries@).subrange(i as int, entries@.len() as int) =~= Seq::<
        (Seq<char>, Seq<char>),
    >::empty());
    None
}

/// Splits a note's text into its front matter and its body.
///
/// The text must start with a line `---`; the YAML block runs to the next line `---`,
/// and everything after that line is the body, further `---` lines included.
pub fn parse_front_matter(contents: &str) -> (r: Result<(FrontMatter, String)>)
    ensures
        r is Ok <==> (frame_of(contents@) is Some && front_matter_of(frame_of(contents@)->Some_0.0)
            is Some),
        r matches Ok((fm, body)) ==> fm@ == front_matter_of(frame_of(contents@)->Some_0.0)->Some_0
            && body@ == frame_of(contents@)->Some_0.1,
        r matches Err(e) ==> e is ParseError,
{
    let cs = chars_of(contents);
    let n = cs.len();
    if !delimiter_starts(&cs, 0) {
        return Err(Error::ParseError(String::from_str("missing front matter")));
    }
    let mut e: usize = 4;
    while e <= n - 4 && !delimiter_starts(&cs, e)
        invariant
            4 <= e,
            4 <= n,
            n == cs@.len(),
            next_delimiter(cs@, e as int) == next_delimiter(cs@, 4),
        decreases n - e,
    {
        e += 1;
    }
    if e > n - 4 {
        return Err(Error::ParseError(String::from_str("unfinished front matter")));
    }
    let yaml = string_of(&cs, 4, e);
    let body = string_of(&cs, e + 4, n);
    match FrontMatter::parse(yaml.as_str()) {
        Ok(fm) => Ok((fm, body)),
        Err(err) => Err(err),
    }
}

fn delimiter_starts(cs: &Vec<char>, i: usize) -> (r: bool)
    ensures
        r == delimiter_at(cs@, i as int),
{
    if i > cs.len() || cs.len() - i < 4 {
        return false;
    }
    let r = cs[i] == '-' && cs[i + 1] == '-' && cs[i + 2] == '-' && cs[i + 3] == '\n';
    proof {
        if r {
            assert(cs@.subrange(i as int, i + 4) =~= delimiter());
        } else {
            let sub = cs@.subrange(i as int, i + 4);
            assert(sub[0] == cs@[i as int] && sub[1] == cs@[i + 1] && sub[2] == cs@[i + 2] && sub[3]
                == cs@[i + 3]);
        }
    }
    r
}

/// The metadata of a note, as plain values.
pub struct MetadataView {
    pub id: Seq<char>,
    pub title: Seq<char>,
    pub slug: Seq<char>,
    pub keywords: Seq<Seq<char>>,
    pub extension: Seq<char>,
}

/// The metadata with these parts, whose slug is that of the title.
pub open spec fn metadata_of(
    id: Seq<char>,
    title: Seq<char>,
    keywords: Seq<Seq<char>>,
    extension: Seq<char>,
) -> MetadataView {
    MetadataView { id, title, slug: slug_of(title), keywords, extension }
}

/// The front matter that a note's metadata projects to.
pub open spec fn front_matter_view_of(m: MetadataView) -> FrontMatterView {
    FrontMatterView { title: m.title, date: human_date_of(m.id), keywords: join(m.keywords, ' ') }
}

/// Whether the file name of a note decodes back: its slug and joined keywords hold no
/// `/`, no line break, no `__` or `--`, and no `_` first or last.
pub open spec fn encodable(m: MetadataView) -> bool {
    segment_ok(m.slug) && segment_ok(join(m.keywords, '_'))
}

/// The canonical path of a note, relative to the repository.
pub open spec fn canonical_path(m: MetadataView) -> Seq<char> {
    encode_path(m.id, m.slug, m.keywords, m.extension)
}

/// Metadata of a note: its identifier, its title and the title's slug, its keywords in
/// order, and its extension. It is the one source from which both the file name and the
/// front matter are derived.
#[derive(Debug, PartialEq, Eq)]
pub struct Metadata {
    id: Id,
    title: String,
    slug: String,
    keywords: Vec<String>,
    extension: String,
}

impl View for Metadata {
    type V = MetadataView;

    closed spec fn view(&self) -> MetadataView {
        MetadataView {
            id: self.id@,
            title: self.title@,
            slug: self.slug@,
            keywords: views(self.keywords@),
            extension: self.extension@,
        }
    }
}

/// A copy of a vector of strings.
fn copy_strings(v: &Vec<String>) -> (r: Vec<String>)
    ensures
        r@ == v@,
{
    let mut r: Vec<String> = Vec::new();
    let mut i: usize = 0;
    while i < v.len()
        invariant
            i <= v@.len(),
            r@ == v@.take(i as int),
        decreases v@.len() - i,
    {
        r.push(v[i].clone());
        assert(r@ =~= v@.take(i + 1));
        i += 1;
    }
    assert(v@.take(v@.len() as int) =~= v@);
    r
}

impl Clone for Metadata {
    fn clone(&self) -> (r: Metadata)
        ensures
            r@ == self@,
    {
        proof {
            use_type_invariant(self);
        }
        Metadata {
            id: self.id.clone(),
            title: self.title.clone(),
            slug: self.slug.clone(),
            keywords: copy_strings(&self.keywords),
            extension: self.extension.clone(),
        }
    }
}

impl Metadata {
    #[verifier::type_invariant]
    closed spec fn slug_follows_title(&self) -> bool {
        self.slug@ == slug_of(self.title@) && slug_shaped(self.slug@)
    }

    /// Metadata with the slug of `title`.
    pub fn new(id: Id, title: String, keywords: Vec<String>, extension: String) -> (r: Metadata)
        ensures
            r@ == metadata_of(id@, title@, views(keywords@), extension@),
    {
        let slug = slugify(title.as_str());
        Metadata { id, title, slug, keywords, extension }
    }

    pub fn id(&self) -> (r: &str)
        ensures
            r@ == self@.id,
    {
        self.id.as_str()
    }

    pub fn identifier(&self) -> (r: &Id)
        ensures
            r@ == self@.id,
    {
        &self.id
    }

    /// The slug, which always is that of the title.
    pub fn slug(&self) -> (r: &str)
        ensures
            r@ == self@.slug,
            r@ == slug_of(self@.title),
            slug_shaped(r@),
    {
        proof {
            use_type_invariant(self);
        }
        self.slug.as_str()
    }

    pub fn title(&self) -> (r: &str)
        ensures
            r@ == self@.title,
    {
        self.title.as_str()
    }

    pub fn extension(&self) -> (r: &str)
        ensures
            r@ == self@.extension,
    {
        self.extension.as_str()
    }

    pub fn keywords(&self) -> (r: &[String])
        ensures
            views(r@) == self@.keywords,
    {
        self.keywords.as_slice()
    }

    /// The front matter: the title, the identifier as a human-readable date, and the
    /// keywords joined by spaces.
    pub fn front_matter(&self) -> (r: FrontMatter)
        ensures
            r@ == front_matter_view_of(self@),
    {
        FrontMatter {
            title: self.title.clone(),
            date: self.id.human_date(),
            keywords: join_with(&self.keywords, ' '),
        }
    }

    /// Whether the note's file name decodes back; see `encodable`.
    pub fn is_encodable(&self) -> (r: bool)
        ensures
            r == encodable(self@),
    {
        let joined = join_with(&self.keywords, '_');
        segment_allowed(self.slug.as_str()) && segment_allowed(joined.as_str())
    }

    /// The path `<year>/<id>--<slug>__<keywords>.<extension>` of the note.
    pub fn relative_path(&self) -> (r: String)
        ensures
            r@ == canonical_path(self@),
    {
        relative_path_of(&self.id, self.slug.as_str(), &self.keywords, self.extension.as_str())
    }
}

/// A note, as plain values.
pub struct NoteView {
    pub metadata: MetadataView,
    pub text: Seq<char>,
}

/// The text of a note on disk: a delimiter line, the YAML of its front matter, a
/// delimiter line, and the body.
pub open spec fn note_text(n: NoteView) -> Seq<char> {
    delimiter() + yaml_text_of(entries_of(front_matter_view_of(n.metadata))) + delimiter() + n.text
}

/// The extension of notes written in Markdown.
pub open spec fn markdown_extension() -> Seq<char> {
    seq!['m', 'd']
}

/// The note that a Markdown text gives under an identifier, with extension `md`.
pub open spec fn markdown_note(id: Seq<char>, contents: Seq<char>) -> Option<NoteView> {
    text_note(id, markdown_extension(), contents)
}

/// The note that a text gives under an identifier and an extension: title and keywords
/// come from the front matter, and the body is what follows it.
pub open spec fn text_note(id: Seq<char>, extension: Seq<char>, contents: Seq<char>) -> Option<
    NoteView,
> {
    match frame_of(contents) {
        Some((yaml, body)) => match front_matter_of(yaml) {
            Some(fm) => Some(
                NoteView {
                    metadata: metadata_of(id, fm.title, pieces(fm.keywords, ' '), extension),
                    text: body,
                },
            ),
            None => None,
        },
        None => None,
    }
}

/// A note: its metadata and its body text.
#[derive(Debug, PartialEq, Eq)]
pub struct Note {
    metadata: Metadata,
    text: String,
}

impl View for Note {
    type V = NoteView;

    closed spec fn view(&self) -> NoteView {
        NoteView { metadata: self.metadata@, text: self.text@ }
    }
}

impl Clone for Note {
    fn clone(&self) -> (r: Note)
        ensures
            r@ == self@,
    {
        Note { metadata: self.metadata.clone(), text: self.text.clone() }
    }
}

impl Note {
    pub fn new(metadata: Metadata, text: String) -> (r: Note)
        ensures
            r@ == (NoteView { metadata: metadata@, text: text@ }),
    {
        Note { metadata, text }
    }

    /// The canonical path of the note.
    pub fn relative_path(&self) -> (r: String)
        ensures
            r@ == canonical_path(self@.metadata),
    {
        self.metadata.relative_path()
    }

    pub fn front_matter(&self) -> (r: FrontMatter)
        ensures
            r@ == front_matter_view_of(self@.metadata),
    {
        self.metadata.front_matter()
    }

    /// Takes title, slug and keywords from an edited front matter; the identifier, the
    /// extension and the body stay.
    pub fn update(&mut self, front_matter: &FrontMatter)
        ensures
            final(self)@ == (NoteView {
                metadata: metadata_of(
                    old(self)@.metadata.id,
                    front_matter@.title,
                    pieces(front_matter@.keywords, ' '),
                    old(self)@.metadata.extension,
                ),
                text: old(self)@.text,
            }),
    {
        let title = front_matter.title.clone();
        let keywords = front_matter.keywords();
        let extension = self.metadata.extension.clone();
        let id = self.metadata.id.clone();
        self.metadata = Metadata::new(id, title, keywords, extension);
    }

    pub fn metadata(&self) -> (r: &Metadata)
        ensures
            r@ == self@.metadata,
    {
        &self.metadata
    }

    pub fn id(&self) -> (r: &str)
        ensures
            r@ == self@.metadata.id,
    {
        self.metadata.id()
    }

    /// The body text.
    pub fn text(&self) -> (r: &str)
        ensures
            r@ == self@.text,
    {
        self.text.as_str()
    }

    /// The text of the note on disk: front matter between delimiter lines, then the body.
    pub fn dump(&self) -> (r: String)
        ensures
            r@ == note_text(self@),
    {
        let mut r = String::from_str("---\n");
        let yaml = self.metadata.front_matter().dump();
        r.append(yaml.as_str());
        r.append("---\n");
        r.append(self.text.as_str());
        proof {
            reveal_strlit("---\n");
        }
        assert("---\n"@ =~= delimiter());
        assert(r@ =~= note_text(self@));
        r
    }
}

/// The note that a Markdown text gives under an identifier, with extension `md`.
pub fn get_note_from_markdown(id: Id, contents: String) -> (r: Result<Note>)
    ensures
        r is Ok <==> markdown_note(id@, contents@) is Some,
        r matches Ok(note) ==> note@ == markdown_note(id@, contents@)->Some_0,
        r matches Err(e) ==> e is ParseError,
{
    let extension = String::from_str("md");
    proof {
        reveal_strlit("md");
    }
    assert(extension@ =~= markdown_extension());
    note_from_text(id, extension, contents)
}

/// The note that a text gives under an identifier and an extension.
pub fn note_from_text(id: Id, extension: String, contents: String) -> (r: Result<Note>)
    ensures
        r is Ok <==> text_note(id@, extension@, contents@) is Some,
        r matches Ok(note) ==> note@ == text_note(id@, extension@, contents@)->Some_0,
        r matches Err(e) ==> e is ParseError,
{
    let (front_matter, text) = match parse_front_matter(contents.as_str()) {
        Ok(parsed) => parsed,
        Err(e) => {
            return Err(e);
        },
    };
    let title = front_matter.title.clone();
    let keywords = front_matter.keywords();
    let metadata = Metadata::new(id, title, keywords, extension);
    Ok(Note { metadata, text })
}

proof fn lemma_next_delimiter_at(s: Seq<char>, from: int, to: int)
    requires
        0 <= from <= to,
        delimiter_at(s, to),
        forall|k: int| from <= k < to ==> !#[trigger] delimiter_at(s, k),
    ensures
        next_delimiter(s, from) == to,
    decreases to - from,
{
    if from < to {
        lemma_next_delimiter_at(s, from + 1, to);
    }
}

/// Splitting a text made of a delimiter line, a YAML block free of delimiter lines, a
/// delimiter line and a body gives back the block and the body.
pub proof fn lemma_frame_round_trip(yaml: Seq<char>, body: Seq<char>)
    requires
        forall|i: int| !#[trigger] delimiter_at(yaml, i),
    ensures
        frame_of(delimiter() + yaml + delimiter() + body) == Some((yaml, body)),
{
    let s = delimiter() + yaml + delimiter() + body;
    let end: int = 4 + yaml.len() as int;
    assert(s.subrange(0, 4) =~= delimiter());
    assert(s.subrange(end, end + 4) =~= delimiter());
    assert forall|k: int| 4 <= k < end implies !#[trigger] delimiter_at(s, k) by {
        if k + 4 <= end {
            assert(s.subrange(k, k + 4) =~= yaml.subrange(k - 4, k));
            assert(!delimiter_at(yaml, k - 4));
        } else {
            assert(s[k + 3] == '-');
            if delimiter_at(s, k) {
                assert(s.subrange(k, k + 4)[3] == '\n');
            }
        }
    }
    lemma_next_delimiter_at(s, 4, end);
    assert(s.subrange(4, end) =~= yaml);
    assert(s.subrange(end + 4, s.len() as int) =~= body);
}

/// The front matter of a note keeps its title, and its keywords field splits back into
/// the note's keywords when none holds a space and they are not a single empty one.
pub proof fn lemma_front_matter_keeps_title_and_keywords(m: MetadataView)
    requires
        m.keywords != seq![Seq::<char>::empty()],
        forall|i: int| 0 <= i < m.keywords.len() ==> !(#[trigger] m.keywords[i]).contains(' '),
    ensures
        front_matter_view_of(m).title == m.title,
        pieces(front_matter_view_of(m).keywords, ' ') == m.keywords,
{
    lemma_pieces_join(m.keywords, ' ');
}

} // verus!
