use vstd::prelude::*;

use crate::error::{Error, Result};
use crate::id::{year_of, Id};
use crate::text::{
    chars_of, join, join_with, lemma_join_free, lemma_pieces_join, pieces, split_pieces, string_of, views,
};

verus! {

pub open spec fn is_ascii_digit(c: char) -> bool {
    '0' <= c <= '9'
}

pub open spec fn is_ascii_lower(c: char) -> bool {
    'a' <= c <= 'z'
}

/// An identifier as it stands in a file name: eight digits, `T`, six digits.
pub open spec fn id_token(s: Seq<char>) -> bool {
    &&& s.len() == 15
    &&& s[8] == 'T'
    &&& forall|i: int| 0 <= i < 15 && i != 8 ==> is_ascii_digit(#[trigger] s[i])
}

/// A valid extension: one or more lowercase ASCII letters.
pub open spec fn extension_token(s: Seq<char>) -> bool {
    s.len() > 0 && forall|i: int| 0 <= i < s.len() ==> is_ascii_lower(#[trigger] s[i])
}

/// Whether `s` holds `c` twice in a row starting at index `i`.
pub open spec fn pair_at(s: Seq<char>, i: int, c: char) -> bool {
    0 <= i && i + 1 < s.len() && s[i] == c && s[i + 1] == c
}

/// Index of the first `__` at or after `from`, or the length of `s` when there is none.
pub open spec fn first_pair(s: Seq<char>, from: int) -> int
    decreases s.len() - from,
{
    if from < 0 || from + 1 >= s.len() {
        s.len() as int
    } else if pair_at(s, from, '_') {
        from
    } else {
        first_pair(s, from + 1)
    }
}

/// Index of the last `.` of `s`, or -1 when there is none.
pub open spec fn last_dot(s: Seq<char>) -> int
    decreases s.len(),
{
    if s.len() == 0 {
        -1
    } else if s.last() == '.' {
        s.len() - 1
    } else {
        last_dot(s.drop_last())
    }
}

/// The parts of a file name, `(id, slug, keywords, extension)`.
pub type NameParts = (Seq<char>, Seq<char>, Seq<Seq<char>>, Seq<char>);

/// Decoding of a file name `<id>--<slug>__<keywords>.<extension>`.
///
/// The identifier is eight digits, `T` and six digits; the slug ends at the first
/// `__` after the identifier's `--`; the extension follows the last `.` and is one or
/// more lowercase letters; the keywords lie between and are split on `_` (none when
/// empty). No part holds a line break.
pub open spec fn decode_name(name: Seq<char>) -> Option<NameParts> {
    let d = last_dot(name);
    let u = first_pair(name, 17);
    if name.len() >= 17 && !name.contains('\n') && id_token(name.subrange(0, 15)) && name[15]
        == '-' && name[16] == '-' && 0 <= d && extension_token(
        name.subrange(d + 1, name.len() as int),
    ) && u + 2 <= d {
        Some(
            (
                name.subrange(0, 15),
                name.subrange(17, u),
                pieces(name.subrange(u + 2, d), '_'),
                name.subrange(d + 1, name.len() as int),
            ),
        )
    } else {
        None
    }
}

/// The file name `<id>--<slug>__<k1>_<k2>...<kn>.<extension>`.
pub open spec fn encode_name(
    id: Seq<char>,
    slug: Seq<char>,
    keywords: Seq<Seq<char>>,
    extension: Seq<char>,
) -> Seq<char> {
    id + seq!['-', '-'] + slug + seq!['_', '_'] + join(keywords, '_') + seq!['.'] + extension
}

/// The path `<year>/<file name>` of a note, relative to the repository.
pub open spec fn encode_path(
    id: Seq<char>,
    slug: Seq<char>,
    keywords: Seq<Seq<char>>,
    extension: Seq<char>,
) -> Seq<char> {
    year_of(id) + seq!['/'] + encode_name(id, slug, keywords, extension)
}

/// What a file name holds.
pub struct FileInfo {
    pub id: Id,
    pub slug: String,
    pub keywords: Vec<String>,
    pub extension: String,
}

impl FileInfo {
    pub open spec fn parts(&self) -> NameParts {
        (self.id@, self.slug@, views(self.keywords@), self.extension@)
    }
}

/// Decodes a file name into identifier, slug, keywords and extension.
pub fn parse_file_name(name: &str) -> (r: Result<FileInfo>)
    ensures
        r is Ok <==> decode_name(name@) is Some,
        r matches Ok(info) ==> info.parts() == decode_name(name@)->Some_0,
        r matches Err(e) ==> e is ParseError,
{
    let cs = chars_of(name);
    let n = cs.len();
    if n < 17 || cs[15] != '-' || cs[16] != '-' {
        return Err(no_match(name));
    }
    let mut k: usize = 0;
    while k < n
        invariant
            k <= n == cs@.len(),
            cs@ == name@,
            forall|j: int| 0 <= j < k ==> cs@[j] != '\n',
        decreases n - k,
    {
        if cs[k] == '\n' {
            assert(cs@.contains('\n'));
            return Err(no_match(name));
        }
        k += 1;
    }
    assert(!name@.contains('\n'));
    let mut i: usize = 0;
    while i < 15
        invariant
            !cs@.contains('\n'),
            n == cs@.len() >= 17,
            cs@ == name@,
            cs@[15] == '-' && cs@[16] == '-',
            i <= 15,
            forall|j: int| 0 <= j < i && j != 8 ==> is_ascii_digit(#[trigger] cs@[j]),
        decreases 15 - i,
    {
        if i != 8 && !('0' <= cs[i] && cs[i] <= '9') {
            assert(!id_token(cs@.subrange(0, 15))) by {
                assert(cs@.subrange(0, 15)[i as int] == cs@[i as int]);
            }
            return Err(no_match(name));
        }
        i += 1;
    }
    if cs[8] != 'T' {
        return Err(no_match(name));
    }
    assert(id_token(cs@.subrange(0, 15))) by {
        assert forall|j: int| 0 <= j < 15 && j != 8 implies is_ascii_digit(
            #[trigger] cs@.subrange(0, 15)[j],
        ) by {
            assert(cs@.subrange(0, 15)[j] == cs@[j]);
        }
    }
    // the last '.'
    let mut d: usize = n;
    assert(cs@.take(n as int) =~= cs@);
    while d > 0 && cs[d - 1] != '.'
        invariant
            d <= n == cs@.len(),
            last_dot(cs@) == last_dot(cs@.take(d as int)),
        decreases d,
    {
        assert(cs@.take(d as int).drop_last() =~= cs@.take(d - 1));
        d -= 1;
    }
    if d == 0 {
        assert(cs@.take(0) =~= Seq::<char>::empty());
        return Err(no_match(name));
    }
    let d = d - 1;
    assert(cs@.take(d + 1).last() == cs@[d as int]);
    assert(last_dot(cs@) == d);
    if d + 1 == n {
        return Err(no_match(name));
    }
    let mut e: usize = d + 1;
    while e < n
        invariant
            d < e <= n == cs@.len(),
            cs@ == name@,
            !cs@.contains('\n'),
            n >= 17,
            last_dot(cs@) == d,
            cs@[15] == '-' && cs@[16] == '-',
            id_token(cs@.subrange(0, 15)),
            forall|j: int| d < j < e ==> is_ascii_lower(#[trigger] cs@[j]),
        decreases n - e,
    {
        if !('a' <= cs[e] && cs[e] <= 'z') {
            assert(!extension_token(cs@.subrange(d + 1, n as int))) by {
                assert(cs@.subrange(d + 1, n as int)[e - d - 1] == cs@[e as int]);
            }
            return Err(no_match(name));
        }
        e += 1;
    }
    assert(extension_token(cs@.subrange(d + 1, n as int))) by {
        assert forall|j: int| 0 <= j < n - d - 1 implies is_ascii_lower(
            #[trigger] cs@.subrange(d + 1, n as int)[j],
        ) by {
            assert(cs@.subrange(d + 1, n as int)[j] == cs@[d + 1 + j]);
        }
    }
    // the first "__" after the identifier
    let mut u: usize = 17;
    while u < n - 1 && !(cs[u] == '_' && cs[u + 1] == '_')
        invariant
            17 <= u <= n == cs@.len(),
            first_pair(cs@, u as int) == first_pair(cs@, 17),
        decreases n - u,
    {
        u += 1;
    }
    let u = if u < n - 1 {
        u
    } else {
        n
    };
    if d < 2 || u > d - 2 {
        return Err(no_match(name));
    }
    let id = match Id::from_str(string_of(&cs, 0, 15).as_str()) {
        Ok(id) => id,
        Err(e) => {
            return Err(e);
        },
    };
    let slug = string_of(&cs, 17, u);
    let keywords = split_pieces(string_of(&cs, u + 2, d).as_str(), '_');
    let extension = string_of(&cs, d + 1, n);
    Ok(FileInfo { id, slug, keywords, extension })
}

fn no_match(name: &str) -> (e: Error)
    ensures
        e is ParseError,
{
    let mut m = String::from_str("file name ");
    m.append(name);
    m.append(" does not match <id>--<slug>__<keywords>.<extension>");
    Error::ParseError(m)
}

/// The path `<year>/<id>--<slug>__<keywords>.<extension>` of a note.
pub fn relative_path_of(id: &Id, slug: &str, keywords: &Vec<String>, extension: &str) -> (r: String)
    ensures
        r@ == encode_path(id@, slug@, views(keywords@), extension@),
{
    let mut r = id.year();
    r.push('/');
    r.append(id.as_str());
    r.append("--");
    r.append(slug);
    r.append("__");
    let joined = join_with(keywords, '_');
    r.append(joined.as_str());
    r.push('.');
    r.append(extension);
    proof {
        reveal_strlit("--");
        reveal_strlit("__");
    }
    assert(r@ =~= encode_path(id@, slug@, views(keywords@), extension@));
    r
}

/// Whether `s` never holds `c` twice in a row.
pub open spec fn no_pair(s: Seq<char>, c: char) -> bool {
    forall|i: int| !#[trigger] pair_at(s, i, c)
}

proof fn lemma_last_dot_before(prefix: Seq<char>, ext: Seq<char>)
    requires
        !ext.contains('.'),
    ensures
        last_dot(prefix + seq!['.'] + ext) == prefix.len(),
    decreases ext.len(),
{
    let s = prefix + seq!['.'] + ext;
    if ext.len() == 0 {
        assert(s.last() == '.');
    } else {
        let e0 = ext.drop_last();
        assert(!e0.contains('.')) by {
            if e0.contains('.') {
                let i = choose|i: int| 0 <= i < e0.len() && e0[i] == '.';
                assert(ext[i] == '.');
            }
        }
        lemma_last_dot_before(prefix, e0);
        assert(s.last() == ext[ext.len() - 1]);
        assert(s.drop_last() =~= prefix + seq!['.'] + e0);
    }
}

proof fn lemma_first_pair_at(s: Seq<char>, from: int, to: int)
    requires
        0 <= from <= to,
        pair_at(s, to, '_'),
        forall|k: int| from <= k < to ==> !#[trigger] pair_at(s, k, '_'),
    ensures
        first_pair(s, from) == to,
    decreases to - from,
{
    if from < to {
        lemma_first_pair_at(s, from + 1, to);
    }
}

/// An encoded file name holds a character that none of its identifier, separators and
/// extension can hold only where the slug or the joined keywords hold it.
pub proof fn lemma_name_free(
    id: Seq<char>,
    slug: Seq<char>,
    keywords: Seq<Seq<char>>,
    extension: Seq<char>,
    c: char,
)
    requires
        id_token(id),
        extension_token(extension),
        !is_ascii_digit(c) && !is_ascii_lower(c),
        c != 'T' && c != '-' && c != '_' && c != '.',
        !slug.contains(c),
        !join(keywords, '_').contains(c),
    ensures
        !encode_name(id, slug, keywords, extension).contains(c),
{
    let name = encode_name(id, slug, keywords, extension);
    let joined = join(keywords, '_');
    if name.contains(c) {
        let k = choose|k: int| 0 <= k < name.len() && name[k] == c;
        let s1: int = 17 + slug.len() as int;
        let j0: int = s1 + 2;
        let j1: int = j0 + joined.len();
        if k < 15 {
            assert(name[k] == id[k]);
            assert(k == 8 || is_ascii_digit(id[k]));
        } else if 17 <= k < s1 {
            assert(name[k] == slug[k - 17]);
        } else if j0 <= k < j1 {
            assert(name[k] == joined[k - j0]);
        } else if k > j1 {
            assert(name[k] == extension[k - j1 - 1]);
        }
    }
}

/// Decoding an encoded file name gives back its identifier, slug and extension, and
/// the pieces of its joined keywords, when the slug holds no `__` and does not end with
/// `_`, and neither the slug nor the keywords hold a line break.
pub proof fn lemma_decode_encoded(
    id: Seq<char>,
    slug: Seq<char>,
    keywords: Seq<Seq<char>>,
    extension: Seq<char>,
)
    requires
        id_token(id),
        extension_token(extension),
        no_pair(slug, '_'),
        slug.len() == 0 || slug.last() != '_',
        !slug.contains('\n'),
        !join(keywords, '_').contains('\n'),
    ensures
        decode_name(encode_name(id, slug, keywords, extension)) == Some(
            (id, slug, pieces(join(keywords, '_'), '_'), extension),
        ),
{
    lemma_name_free(id, slug, keywords, extension, '\n');
    let joined = join(keywords, '_');
    let name = encode_name(id, slug, keywords, extension);
    let u0: int = 17 + slug.len() as int;
    let d0: int = u0 + 2 + joined.len();
    let prefix = id + seq!['-', '-'] + slug + seq!['_', '_'] + joined;
    assert(name =~= prefix + seq!['.'] + extension);
    assert(!extension.contains('.')) by {
        if extension.contains('.') {
            let i = choose|i: int| 0 <= i < extension.len() && extension[i] == '.';
            assert(is_ascii_lower(extension[i]));
        }
    }
    lemma_last_dot_before(prefix, extension);
    assert(name[u0] == '_' && name[u0 + 1] == '_');
    assert forall|k: int| 17 <= k < u0 implies !#[trigger] pair_at(name, k, '_') by {
        assert(name[k] == slug[k - 17]);
        if k + 1 < u0 {
            assert(name[k + 1] == slug[k - 16]);
            assert(!pair_at(slug, k - 17, '_'));
        } else {
            assert(slug.last() == slug[slug.len() - 1]);
        }
    }
    lemma_first_pair_at(name, 17, u0);
    assert(name.subrange(0, 15) =~= id);
    assert(name.subrange(17, u0) =~= slug);
    assert(name.subrange(u0 + 2, d0) =~= joined);
    assert(name.subrange(d0 + 1, name.len() as int) =~= extension);
}

/// Decoding the file name of a note gives back its identifier, slug, keywords and
/// extension, when the slug holds no `__` and does not end with `_`, no keyword holds
/// `_`, the keywords are not a single empty one, and no line break stands in the slug
/// or the keywords.
pub proof fn lemma_file_name_round_trip(
    id: Seq<char>,
    slug: Seq<char>,
    keywords: Seq<Seq<char>>,
    extension: Seq<char>,
)
    requires
        id_token(id),
        extension_token(extension),
        no_pair(slug, '_'),
        slug.len() == 0 || slug.last() != '_',
        !slug.contains('\n'),
        keywords != seq![Seq::<char>::empty()],
        forall|i: int| 0 <= i < keywords.len() ==> !(#[trigger] keywords[i]).contains('_'),
        forall|i: int| 0 <= i < keywords.len() ==> !(#[trigger] keywords[i]).contains('\n'),
    ensures
        decode_name(encode_name(id, slug, keywords, extension)) == Some(
            (id, slug, keywords, extension),
        ),
{
    lemma_join_free(keywords, '_', '\n');
    lemma_decode_encoded(id, slug, keywords, extension);
    lemma_pieces_join(keywords, '_');
}

/// What the slug and the joined keywords of a file name may hold: no `/` and no line
/// break, no `__` and no `--`, and no `_` first or last.
pub open spec fn segment_ok(s: Seq<char>) -> bool {
    &&& !s.contains('/')
    &&& !s.contains('\n')
    &&& no_pair(s, '_')
    &&& no_pair(s, '-')
    &&& s.len() > 0 ==> s[0] != '_' && s.last() != '_'
}

/// Whether a slug or a joined keywords part may stand in a file name.
pub fn segment_allowed(s: &str) -> (r: bool)
    ensures
        r == segment_ok(s@),
{
    let cs = chars_of(s);
    let n = cs.len();
    if n > 0 && (cs[0] == '_' || cs[n - 1] == '_') {
        return false;
    }
    let mut i: usize = 0;
    while i < n
        invariant
            i <= n == cs@.len(),
            cs@ == s@,
            n > 0 ==> cs@[0] != '_' && cs@.last() != '_',
            forall|j: int|
                0 <= j < i ==> #[trigger] cs@[j] != '/' && cs@[j] != '\n' && !pair_at(cs@, j, '_')
                    && !pair_at(cs@, j, '-'),
        decreases n - i,
    {
        let c = cs[i];
        if c == '/' || c == '\n' {
            assert(cs@.contains(c));
            return false;
        }
        if i + 1 < n && (c == '_' || c == '-') && cs[i + 1] == c {
            assert(pair_at(cs@, i as int, c));
            return false;
        }
        i += 1;
    }
    assert(!cs@.contains('/') && !cs@.contains('\n'));
    assert forall|j: int| !#[trigger] pair_at(cs@, j, '_') by {
        if 0 <= j < n {
            assert(cs@[j] != '/');
        }
    }
    assert forall|j: int| !#[trigger] pair_at(cs@, j, '-') by {
        if 0 <= j < n {
            assert(cs@[j] != '/');
        }
    }
    true
}

} // verus!
