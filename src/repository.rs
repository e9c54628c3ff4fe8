use vstd::prelude::*;

use crate::date::{now_utc, DateTime};
use crate::error::{Error, Result};
use crate::filename::{
    decode_name, encode_name, extension_token, id_token, is_ascii_digit, lemma_decode_encoded,
    lemma_name_free, parse_file_name,
};
use crate::id::{id_of_date, year_of, Id};
use crate::note::{
    canonical_path, encodable, frame_of, front_matter_of, get_note_from_markdown, markdown_note,
    note_from_text, note_text, text_note, Note, NoteView,
};
use crate::paths::{
    components, is_component, is_relative, join_path, join_paths, name_from_relative_path, named,
    path_components, path_is_relative,
};
use crate::text::{lemma_split_append, lemma_split_no_sep, split, views};

verus! {

/// Relies on `std::path::Path::is_dir`: whether a directory stands at the path now.
/// What is on disk is not known here, so nothing is stated of the answer.
#[verifier::external_body]
fn is_directory(path: &str) -> (r: bool) {
    std::path::Path::new(path).is_dir()
}

/// Relies on `std::path::Path::exists`: whether anything stands at the path now.
#[verifier::external_body]
fn path_exists(path: &str) -> (r: bool) {
    std::path::Path::new(path).exists()
}

/// Relies on `std::path::Path::is_file`: whether a file stands at the path now.
#[verifier::external_body]
fn is_file(path: &str) -> (r: bool) {
    std::path::Path::new(path).is_file()
}

/// The note stored at a relative path with these contents: the path is relative and has
/// at least two components, the last one decodes as a file name, and the contents hold a
/// front matter. Identifier and extension come from the file name; the rest from the
/// contents.
pub open spec fn loaded(path: Seq<char>, contents: Seq<char>) -> Option<NoteView> {
    let comps = components(path);
    if is_relative(path) && comps.len() >= 2 && decode_name(comps.last()) is Some {
        let parts = decode_name(comps.last())->Some_0;
        text_note(parts.0, parts.3, contents)
    } else {
        None
    }
}

/// Where a note stored at `path` has to move: nowhere when `path` already names its
/// canonical path, else to the canonical path.
pub open spec fn rename_of(path: Seq<char>, note: NoteView) -> Option<Seq<char>> {
    let target = canonical_path(note.metadata);
    if components(path) == components(target) {
        None
    } else {
        Some(target)
    }
}

/// The path of the note stored at `path` with these contents after an update: its
/// canonical path, or `path` itself when that already names it. There is none when the
/// note does not load or its file name would not decode back.
pub open spec fn updated_path(path: Seq<char>, contents: Seq<char>) -> Option<Seq<char>> {
    match loaded(path, contents) {
        Some(note) => if encodable(note.metadata) {
            match rename_of(path, note) {
                Some(target) => Some(target),
                None => Some(path),
            }
        } else {
            None
        },
        None => None,
    }
}

/// Whether a draft can become a note: it holds a front matter with a non-empty title.
pub open spec fn draft_accepted(contents: Seq<char>) -> bool {
    match frame_of(contents) {
        Some((yaml, _)) => match front_matter_of(yaml) {
            Some(fm) => fm.title.len() > 0,
            None => false,
        },
        None => false,
    }
}

/// What saving a note takes: the file to write, its contents, and the year directory
/// to create first, if any.
pub struct SavePlan {
    pub relative_path: String,
    pub full_path: String,
    pub create_dir: Option<String>,
    pub contents: String,
}

/// Notes stored under a base directory, one directory per year.
#[derive(Debug)]
pub struct NotesRepository {
    base_path: String,
}

impl View for NotesRepository {
    type V = Seq<char>;

    closed spec fn view(&self) -> Seq<char> {
        self.base_path@
    }
}

impl NotesRepository {
    /// Opens the repository at `base_path`, which must be a directory: it is never created.
    pub fn open(base_path: &str) -> (r: Result<NotesRepository>)
        ensures
            r matches Ok(repo) ==> repo@ == base_path@,
            r matches Err(e) ==> e is OSError,
    {
        let is_dir = is_directory(base_path);
        NotesRepository::open_with(base_path, is_dir)
    }

    /// Opens the repository at `base_path`, given whether a directory stands there.
    pub fn open_with(base_path: &str, is_dir: bool) -> (r: Result<NotesRepository>)
        ensures
            r is Ok <==> is_dir,
            r matches Ok(repo) ==> repo@ == base_path@,
            r matches Err(e) ==> e is OSError,
    {
        if !is_dir {
            let mut m = String::from_str(base_path);
            m.append(" should be a directory");
            return Err(Error::OSError(m));
        }
        Ok(NotesRepository { base_path: base_path.to_string() })
    }

    /// The base directory, under which the `<year>` directories stand.
    pub fn base_path(&self) -> (r: &str)
        ensures
            r@ == self@,
    {
        self.base_path.as_str()
    }

    /// The full path of a relative path; an absolute path is refused.
    pub fn full_path(&self, relative_path: &str) -> (r: Result<String>)
        ensures
            r is Ok <==> is_relative(relative_path@),
            r matches Ok(p) ==> p@ == join_path(self@, relative_path@),
            r matches Err(e) ==> e is OSError,
    {
        if !path_is_relative(relative_path) {
            let mut m = String::from_str("expecting a relative path, got ");
            m.append(relative_path);
            return Err(Error::OSError(m));
        }
        Ok(join_paths(self.base_path.as_str(), relative_path))
    }

    /// The note stored at `relative_path` whose file holds `contents`.
    ///
    /// Loading is strict: a file without a well-formed front matter fails with a parse
    /// error rather than loading as a note without a title.
    pub fn load(&self, relative_path: &str, contents: String) -> (r: Result<Note>)
        ensures
            r is Ok <==> loaded(relative_path@, contents@) is Some,
            r matches Ok(note) ==> note@ == loaded(relative_path@, contents@)->Some_0,
            r matches Err(e) ==> (e is OSError <==> !is_relative(relative_path@)),
    {
        if !path_is_relative(relative_path) {
            let mut m = String::from_str("expecting a relative path, got ");
            m.append(relative_path);
            return Err(Error::OSError(m));
        }
        let comps = path_components(relative_path);
        if comps.len() < 2 {
            let mut m = String::from_str("relative path should look like <year>/<name>, got ");
            m.append(relative_path);
            return Err(Error::ParseError(m));
        }
        assert(views(comps@).len() == comps@.len());
        let name = name_from_relative_path(relative_path);
        let info = match parse_file_name(name.as_str()) {
            Ok(info) => info,
            Err(e) => {
                return Err(e);
            },
        };
        note_from_text(info.id, info.extension, contents)
    }

    /// Where the note at `relative_path` has to be renamed to, if anywhere. A note whose
    /// file name would not decode back is refused.
    pub fn rename_target(relative_path: &str, note: &Note) -> (r: Result<Option<String>>)
        ensures
            r is Err <==> !encodable(note@.metadata),
            r matches Err(e) ==> e is ParseError,
            r matches Ok(Some(p)) ==> rename_of(relative_path@, note@) == Some(p@),
            r matches Ok(None) ==> rename_of(relative_path@, note@) is None,
    {
        if !note.metadata().is_encodable() {
            return Err(not_encodable());
        }
        let target = note.relative_path();
        let current = path_components(relative_path);
        let canonical = path_components(target.as_str());
        if same_strings(&current, &canonical) {
            Ok(None)
        } else {
            Ok(Some(target))
        }
    }

    /// The path the note at `relative_path`, whose file holds `contents`, has after an
    /// update: its canonical path, or `relative_path` itself when no rename is needed.
    /// The caller renames the file when the two differ.
    pub fn update(&self, relative_path: &str, contents: String) -> (r: Result<String>)
        ensures
            r is Ok <==> updated_path(relative_path@, contents@) is Some,
            r matches Ok(p) ==> p@ == updated_path(relative_path@, contents@)->Some_0,
            r matches Err(e) ==> (e is OSError <==> !is_relative(relative_path@)),
    {
        let note = match self.load(relative_path, contents) {
            Ok(note) => note,
            Err(e) => {
                return Err(e);
            },
        };
        match NotesRepository::rename_target(relative_path, &note) {
            Ok(Some(target)) => Ok(target),
            Ok(None) => Ok(relative_path.to_string()),
            Err(e) => Err(e),
        }
    }

    /// The year directory of a note under the base directory.
    pub fn year_dir(&self, note: &Note) -> (r: String)
        ensures
            r@ == join_path(self@, year_of(note@.metadata.id)),
    {
        let year = note.metadata().identifier().year();
        join_paths(self.base_path.as_str(), year.as_str())
    }

    /// What saving a note takes, given what stands at its year directory: a note whose
    /// file name would not decode back is refused; a file in place of the directory fails
    /// the save; a missing directory is created, alone; the note's text is written at its
    /// canonical path.
    pub fn plan_save(&self, note: &Note, parent_exists: bool, parent_is_file: bool) -> (r: Result<
        SavePlan,
    >)
        ensures
            r is Err <==> !encodable(note@.metadata) || (parent_exists && parent_is_file),
            r matches Err(e) ==> (e is ParseError <==> !encodable(note@.metadata)),
            r matches Ok(plan) ==> {
                &&& plan.relative_path@ == canonical_path(note@.metadata)
                &&& plan.full_path@ == join_path(self@, canonical_path(note@.metadata))
                &&& plan.contents@ == note_text(note@)
                &&& (plan.create_dir is Some <==> !parent_exists)
                &&& plan.create_dir matches Some(d) ==> d@ == join_path(
                    self@,
                    year_of(note@.metadata.id),
                )
            },
    {
        if !note.metadata().is_encodable() {
            return Err(not_encodable());
        }
        let dir = self.year_dir(note);
        if parent_exists && parent_is_file {
            let mut m = String::from_str("cannot use ");
            m.append(dir.as_str());
            m.append(" as year directory because a file stands there");
            return Err(Error::OSError(m));
        }
        let relative_path = note.relative_path();
        let full_path = join_paths(self.base_path.as_str(), relative_path.as_str());
        let contents = note.dump();
        let create_dir = if parent_exists {
            None
        } else {
            Some(dir)
        };
        Ok(SavePlan { relative_path, full_path, create_dir, contents })
    }

    /// What saving a note takes, from what stands at its year directory now.
    pub fn save(&self, note: &Note) -> (r: Result<SavePlan>)
        ensures
            !encodable(note@.metadata) ==> r matches Err(Error::ParseError(_)),
            encodable(note@.metadata) ==> (r matches Err(e) ==> e is OSError),
            r matches Ok(plan) ==> {
                &&& plan.relative_path@ == canonical_path(note@.metadata)
                &&& plan.full_path@ == join_path(self@, canonical_path(note@.metadata))
                &&& plan.contents@ == note_text(note@)
                &&& plan.create_dir matches Some(d) ==> d@ == join_path(
                    self@,
                    year_of(note@.metadata.id),
                )
            },
    {
        let dir = self.year_dir(note);
        let exists = path_exists(dir.as_str());
        let file = is_file(dir.as_str());
        self.plan_save(note, exists, file)
    }

    /// The note that a draft becomes when it is imported at `now`: its identifier is
    /// `now`'s, and the draft must hold a front matter with a non-empty title.
    pub fn note_from_draft(contents: String, now: &DateTime) -> (r: Result<Note>)
        requires
            now.in_range(),
        ensures
            r is Ok <==> now.four_digit_year() && draft_accepted(contents@),
            r matches Ok(note) ==> note@ == markdown_note(id_of_date(*now), contents@)->Some_0,
            r matches Err(e) ==> e is ParseError,
    {
        if !now.has_four_digit_year() {
            return Err(Error::ParseError(String::from_str("the year of the date has more than four digits")));
        }
        let id = Id::from_date(now);
        let note = match get_note_from_markdown(id, contents) {
            Ok(note) => note,
            Err(e) => {
                return Err(e);
            },
        };
        if note.metadata().title().unicode_len() == 0 {
            return Err(Error::ParseError(String::from_str("the note has no title")));
        }
        Ok(note)
    }

    /// The note that a draft becomes when it is imported now.
    pub fn draft_note(contents: String) -> (r: Result<Note>)
        ensures
            r is Ok ==> draft_accepted(contents@),
            r matches Ok(note) ==> note@ == markdown_note(note@.metadata.id, contents@)->Some_0,
            !draft_accepted(contents@) ==> r is Err,
            r matches Err(e) ==> e is ParseError,
    {
        let now = now_utc();
        NotesRepository::note_from_draft(contents, &now)
    }
}

fn not_encodable() -> (e: Error)
    ensures
        e is ParseError,
{
    Error::ParseError(
        String::from_str(
            "slug and keywords may not hold '/', a line break, '__', '--', or '_' first or last",
        ),
    )
}

/// Whether two vectors of strings hold the same texts.
fn same_strings(a: &Vec<String>, b: &Vec<String>) -> (r: bool)
    ensures
        r == (views(a@) == views(b@)),
{
    if a.len() != b.len() {
        assert(views(a@).len() != views(b@).len());
        return false;
    }
    let mut i: usize = 0;
    while i < a.len()
        invariant
            i <= a@.len() == b@.len(),
            forall|j: int| 0 <= j < i ==> a@[j]@ == b@[j]@,
        decreases a@.len() - i,
    {
        if a[i] != b[i] {
            assert(views(a@)[i as int] != views(b@)[i as int]);
            return false;
        }
        i += 1;
    }
    assert(views(a@) =~= views(b@));
    true
}

/// Updating the path that an update gave renames nothing: a note moved to its canonical
/// path loads there as the same note, and that path already names it.
pub proof fn lemma_update_idempotent(path: Seq<char>, contents: Seq<char>)
    requires
        updated_path(path, contents) is Some,
    ensures
        loaded(updated_path(path, contents)->Some_0, contents) == loaded(path, contents),
        updated_path(updated_path(path, contents)->Some_0, contents) == updated_path(
            path,
            contents,
        ),
{
    let n = loaded(path, contents)->Some_0;
    if rename_of(path, n) is Some {
        lemma_canonical_loads(path, contents);
    }
}

/// A note that loads and whose file name decodes back loads as the same note from its
/// canonical path, where it needs no rename.
proof fn lemma_canonical_loads(path: Seq<char>, contents: Seq<char>)
    requires
        loaded(path, contents) is Some,
        encodable(loaded(path, contents)->Some_0.metadata),
    ensures
        loaded(canonical_path(loaded(path, contents)->Some_0.metadata), contents) == loaded(
            path,
            contents,
        ),
        rename_of(
            canonical_path(loaded(path, contents)->Some_0.metadata),
            loaded(path, contents)->Some_0,
        ) is None,
{
    let n = loaded(path, contents)->Some_0;
    let m = n.metadata;
    let first = components(path).last();
    let parts = decode_name(first)->Some_0;
    let id = parts.0;
    assert(id == first.subrange(0, 15));
    assert(id_token(id));
    assert(m.id == id);
    assert(m.extension == parts.3);
    assert(extension_token(m.extension));
    let name = encode_name(m.id, m.slug, m.keywords, m.extension);
    let year = year_of(m.id);
    let q = canonical_path(m);
    assert(q == year + seq!['/'] + name);
    assert(m.slug.len() == 0 || m.slug.last() != '_') by {
        if m.slug.len() > 0 {
            assert(m.slug[0] != '_');
        }
    }
    lemma_decode_encoded(m.id, m.slug, m.keywords, m.extension);
    lemma_name_free(m.id, m.slug, m.keywords, m.extension, '/');
    assert(!year.contains('/')) by {
        if year.contains('/') {
            let k = choose|k: int| 0 <= k < year.len() && year[k] == '/';
            assert(year[k] == id[k]);
            assert(is_ascii_digit(id[k]));
        }
    }
    lemma_split_append(year, name, '/');
    lemma_split_no_sep(year, '/');
    assert(seq![year].push(name) =~= seq![year, name]);
    let pieces = seq![year, name];
    assert(split(q, '/') == pieces);
    assert(is_component(year)) by {
        assert(year.len() == 4);
    }
    assert(is_component(name)) by {
        assert(name.len() >= 17);
    }
    assert(pieces.drop_last() =~= seq![year]);
    assert(seq![year].drop_last() =~= Seq::<Seq<char>>::empty());
    assert(named(Seq::<Seq<char>>::empty()) == Seq::<Seq<char>>::empty());
    assert(named(seq![year]) =~= seq![year]);
    assert(named(pieces) =~= pieces);
    assert(components(q) == pieces);
    assert(is_relative(q)) by {
        assert(q[0] == id[0]);
        assert(is_ascii_digit(id[0]));
    }
}

} // verus!
