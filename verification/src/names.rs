//! Fully-qualified securable names: `catalog[.schema[.table]]`.
use crate::text::{lemma_split_nonempty, split_seq, split_text, trim_both, trim_leading, trim_text, trim_trailing};
use vstd::prelude::*;
use vstd::string::*;

verus! {

/// The dot-separated segments of a full name.
pub open spec fn segments(full_name: Seq<char>) -> Seq<Seq<char>> {
    split_seq(full_name, '.')
}

/// How many levels of the hierarchy a full name reaches: one for a catalog,
/// two for a schema, three for a table. Segments after the third belong to
/// the table's own name.
pub open spec fn level_count(full_name: Seq<char>) -> nat {
    if segments(full_name).len() >= 3 {
        3
    } else {
        segments(full_name).len()
    }
}

/// The catalog's name: the first segment without surrounding double quotes.
pub open spec fn catalog_scope(full_name: Seq<char>) -> Seq<char> {
    trim_both(segments(full_name)[0], '"')
}

/// The schema's qualified name: the first two segments as written.
pub open spec fn schema_scope(full_name: Seq<char>) -> Seq<char> {
    segments(full_name)[0].push('.') + segments(full_name)[1]
}

/// The ancestor scopes of a full name, outermost first. `schema` is present
/// from two segments on, `table` from three on.
#[derive(Debug, Clone)]
pub struct SecurableName {
    pub catalog: String,
    pub schema: Option<String>,
    pub table: Option<String>,
}

/// Mathematical value of a [`SecurableName`].
pub struct SecurableNameView {
    pub catalog: Seq<char>,
    pub schema: Option<Seq<char>>,
    pub table: Option<Seq<char>>,
}

impl View for SecurableName {
    type V = SecurableNameView;

    open spec fn view(&self) -> SecurableNameView {
        SecurableNameView {
            catalog: self.catalog@,
            schema: match self.schema {
                Some(s) => Some(s@),
                None => None,
            },
            table: match self.table {
                Some(t) => Some(t@),
                None => None,
            },
        }
    }
}

impl SecurableNameView {
    /// The scopes that a full name denotes.
    pub open spec fn of(full_name: Seq<char>) -> SecurableNameView {
        SecurableNameView {
            catalog: catalog_scope(full_name),
            schema: if level_count(full_name) >= 2 {
                Some(schema_scope(full_name))
            } else {
                None
            },
            table: if level_count(full_name) >= 3 {
                Some(full_name)
            } else {
                None
            },
        }
    }

    /// A table scope is only derived under a schema scope.
    pub open spec fn well_formed(self) -> bool {
        self.table is Some ==> self.schema is Some
    }

    /// Number of scopes present.
    pub open spec fn levels(self) -> nat {
        if self.table is Some {
            3
        } else if self.schema is Some {
            2
        } else {
            1
        }
    }
}

impl SecurableName {
    /// Derives the ancestor scopes of `full_name`.
    pub fn parse(full_name: &str) -> (name: SecurableName)
        ensures
            name@ == SecurableNameView::of(full_name@),
            name@.well_formed(),
    {
        let pieces = split_text(full_name, '.');
        proof {
            lemma_split_nonempty(full_name@, '.');
        }
        let catalog = trim_text(pieces[0].as_str(), '"');
        let schema = if pieces.len() >= 2 {
            let mut qualified = String::from_str(pieces[0].as_str());
            qualified.append(".");
            proof {
                reveal_strlit(".");
            }
            qualified.append(pieces[1].as_str());
            assert(qualified@ =~= schema_scope(full_name@));
            Some(qualified)
        } else {
            None
        };
        let table = if pieces.len() >= 3 {
            Some(String::from_str(full_name))
        } else {
            None
        };
        SecurableName { catalog, schema, table }
    }

    /// Number of scopes present: 1, 2 or 3.
    pub fn levels(&self) -> (n: usize)
        ensures
            n == self@.levels(),
    {
        if self.table.is_some() {
            3
        } else if self.schema.is_some() {
            2
        } else {
            1
        }
    }
}

/// A name of one, two or three segments yields exactly that many scopes,
/// none of them empty, the schema scope only from two segments on and the
/// table scope only from three on. The first segment must hold something
/// besides double quotes, at `at`; a first segment of quotes alone names no
/// catalog.
pub proof fn lemma_scopes_follow_segments(full_name: Seq<char>, at: int)
    requires
        1 <= segments(full_name).len() <= 3,
        0 <= at < segments(full_name)[0].len(),
        segments(full_name)[0][at] != '"',
    ensures
        SecurableNameView::of(full_name).levels() == segments(full_name).len(),
        SecurableNameView::of(full_name).schema is Some <==> segments(full_name).len() >= 2,
        SecurableNameView::of(full_name).table is Some <==> segments(full_name).len() >= 3,
        SecurableNameView::of(full_name).catalog.len() > 0,
        SecurableNameView::of(full_name).schema matches Some(s) ==> s.len() > 0,
        SecurableNameView::of(full_name).table matches Some(t) ==> t.len() > 0,
{
    lemma_trim_keeps_other_chars(segments(full_name)[0], '"', at);
    if segments(full_name).len() >= 3 {
        assert(segments(Seq::<char>::empty()).len() == 1);
    }
}

/// Trimming a text that holds something other than `c` leaves something.
pub proof fn lemma_trim_keeps_other_chars(s: Seq<char>, c: char, at: int)
    requires
        0 <= at < s.len(),
        s[at] != c,
    ensures
        trim_both(s, c).len() > 0,
{
    lemma_trim_leading_keeps(s, c, at);
    let t = trim_leading(s, c);
    let k = choose|k: int| 0 <= k < t.len() && t[k] != c;
    lemma_trim_trailing_keeps(t, c, k);
}

proof fn lemma_trim_leading_keeps(s: Seq<char>, c: char, at: int)
    requires
        0 <= at < s.len(),
        s[at] != c,
    ensures
        exists|k: int| 0 <= k < trim_leading(s, c).len() && trim_leading(s, c)[k] != c,
    decreases s.len(),
{
    if s[0] == c {
        let rest = s.drop_first();
        assert(rest[at - 1] == s[at]);
        lemma_trim_leading_keeps(rest, c, at - 1);
        let k = choose|k: int| 0 <= k < trim_leading(rest, c).len() && trim_leading(rest, c)[k] != c;
        assert(trim_leading(s, c)[k] != c);
    } else {
        assert(trim_leading(s, c)[at] != c);
    }
}

proof fn lemma_trim_trailing_keeps(s: Seq<char>, c: char, at: int)
    requires
        0 <= at < s.len(),
        s[at] != c,
    ensures
        trim_trailing(s, c).len() > 0,
    decreases s.len(),
{
    if s.last() == c {
        lemma_trim_trailing_keeps(s.drop_last(), c, at);
    }
}

} // verus!
