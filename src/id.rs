use vstd::prelude::*;

use crate::date::DateTime;
use crate::error::{Error, Result};
use crate::text::{lemma_len_padded, padded, push_padded};

verus! {

/// A note identifier, written `YYYYMMDDTHHMMSS`.
///
/// Identifiers compare as their text does, which is also chronological.
#[derive(Debug, PartialEq, Eq, PartialOrd, Ord, Hash)]
pub struct Id(String);

impl View for Id {
    type V = Seq<char>;

    closed spec fn view(&self) -> Seq<char> {
        self.0@
    }
}

/// Shape that every identifier has: fifteen characters with a `T` at index 8.
pub open spec fn id_shaped(s: Seq<char>) -> bool {
    s.len() == 15 && s[8] == 'T'
}

/// `YYYY-MM-DD HH:MM:SS` rendering of an identifier.
pub open spec fn human_date_of(s: Seq<char>) -> Seq<char> {
    s.subrange(0, 4) + seq!['-'] + s.subrange(4, 6) + seq!['-'] + s.subrange(6, 8) + seq![' ']
        + s.subrange(9, 11) + seq![':'] + s.subrange(11, 13) + seq![':'] + s.subrange(13, 15)
}

/// Identifier of a date: zero-padded year, month, day, `T`, hour, minute, second.
pub open spec fn id_of_date(d: DateTime) -> Seq<char> {
    padded(d.year as nat, 4) + padded(d.month as nat, 2) + padded(d.day as nat, 2) + seq!['T']
        + padded(d.hour as nat, 2) + padded(d.minute as nat, 2) + padded(d.second as nat, 2)
}

/// Year bucket of an identifier: its first four characters.
pub open spec fn year_of(s: Seq<char>) -> Seq<char> {
    s.subrange(0, 4)
}

impl Clone for Id {
    fn clone(&self) -> (r: Id)
        ensures
            r@ == self@,
    {
        proof {
            use_type_invariant(self);
        }
        Id(self.0.clone())
    }
}

impl Id {
    #[verifier::type_invariant]
    closed spec fn shaped(&self) -> bool {
        id_shaped(self.0@)
    }

    /// Parses an identifier: fails unless the text has fifteen characters with a `T` at index 8.
    pub fn from_str(s: &str) -> (r: Result<Id>)
        ensures
            r is Ok <==> id_shaped(s@),
            r matches Ok(id) ==> id@ == s@,
            r matches Err(e) ==> e is ParseError,
    {
        let n = s.unicode_len();
        if n != 15 {
            let mut m = String::from_str("value '");
            m.append(s);
            m.append("' should contain 15 characters");
            return Err(Error::ParseError(m));
        }
        if s.get_char(8) != 'T' {
            let mut m = String::from_str("value '");
            m.append(s);
            m.append("' should contain a 'T' in the middle");
            return Err(Error::ParseError(m));
        }
        Ok(Id(s.to_string()))
    }

    /// The identifier's text, which is always well shaped.
    pub fn as_str(&self) -> (r: &str)
        ensures
            r@ == self@,
            id_shaped(r@),
    {
        proof {
            use_type_invariant(self);
        }
        self.0.as_str()
    }

    /// The year bucket: the first four characters.
    pub fn year(&self) -> (r: String)
        ensures
            r@ == year_of(self@),
    {
        proof {
            use_type_invariant(self);
        }
        self.0.as_str().substring_char(0, 4).to_string()
    }

    /// The identifier as `YYYY-MM-DD HH:MM:SS`.
    pub fn human_date(&self) -> (r: String)
        ensures
            r@ == human_date_of(self@),
    {
        proof {
            use_type_invariant(self);
        }
        let s = self.0.as_str();
        let mut r = s.substring_char(0, 4).to_string();
        r.append("-");
        r.append(s.substring_char(4, 6));
        r.append("-");
        r.append(s.substring_char(6, 8));
        r.append(" ");
        r.append(s.substring_char(9, 11));
        r.append(":");
        r.append(s.substring_char(11, 13));
        r.append(":");
        r.append(s.substring_char(13, 15));
        proof {
            reveal_strlit("-");
            reveal_strlit(" ");
            reveal_strlit(":");
        }
        assert(r@ =~= human_date_of(self@));
        r
    }

    /// The identifier of a date with a four-digit year.
    pub fn from_date(date: &DateTime) -> (r: Id)
        requires
            date.in_range(),
            date.four_digit_year(),
        ensures
            r@ == id_of_date(*date),
    {
        let mut s = String::new();
        push_padded(&mut s, date.year as u32, 4);
        push_padded(&mut s, date.month as u32, 2);
        push_padded(&mut s, date.day as u32, 2);
        s.push('T');
        push_padded(&mut s, date.hour as u32, 2);
        push_padded(&mut s, date.minute as u32, 2);
        push_padded(&mut s, date.second as u32, 2);
        proof {
            lemma_len_padded(date.year as nat, 4);
            lemma_len_padded(date.month as nat, 2);
            lemma_len_padded(date.day as nat, 2);
            lemma_len_padded(date.hour as nat, 2);
            lemma_len_padded(date.minute as nat, 2);
            lemma_len_padded(date.second as nat, 2);
        }
        assert(s@ =~= id_of_date(*date));
        Id(s)
    }
}

} // verus!
