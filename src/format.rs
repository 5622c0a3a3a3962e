//! Normalized semantic column types and their resolution from declared types.

use vstd::prelude::*;

verus! {

/// Semantic type of a column.
#[derive(Debug, Clone, Copy, PartialEq, Eq, Hash, Structural)]
pub enum Format {
    Integer,
    Numeric,
    Real,
    Boolean,
    Text,
    Blob,
}

/// The lower-case label of a format.
pub open spec fn format_label(f: Format) -> Seq<char> {
    match f {
        Format::Integer => "integer"@,
        Format::Numeric => "numeric"@,
        Format::Real => "real"@,
        Format::Boolean => "boolean"@,
        Format::Text => "text"@,
        Format::Blob => "blob"@,
    }
}

impl Format {
    /// The lower-case label of the format, as shown in the dashboard.
    pub fn label(&self) -> (r: &'static str)
        ensures
            r@ == format_label(*self),
    {
        match self {
            Format::Integer => "integer",
            Format::Numeric => "numeric",
            Format::Real => "real",
            Format::Boolean => "boolean",
            Format::Text => "text",
            Format::Blob => "blob",
        }
    }
}


/// ASCII lower-casing of one character.
pub open spec fn lower_char(c: char) -> char {
    if 'A' <= c && c <= 'Z' {
        ((c as u32) + 32) as char
    } else {
        c
    }
}

/// ASCII lower-casing of a character sequence; other characters are kept.
pub open spec fn ascii_lower(s: Seq<char>) -> Seq<char> {
    s.map_values(|c: char| lower_char(c))
}

/// `p` is a prefix of `s`.
pub open spec fn starts_with(s: Seq<char>, p: Seq<char>) -> bool {
    p.len() <= s.len() && s.subrange(0, p.len() as int) == p
}

/// A declared type matches an alias when either one is a prefix of the other.
pub open spec fn alias_matches(declared: Seq<char>, alias: Seq<char>) -> bool {
    starts_with(alias, declared) || starts_with(declared, alias)
}

/// The aliases under which each format may be declared.
pub open spec fn format_aliases(f: Format) -> Seq<Seq<char>> {
    match f {
        Format::Integer => seq![
            "integer"@,
            "tinyint"@,
            "smallint"@,
            "mediumint"@,
            "bigint"@,
            "unsigned big int"@,
            "int2"@,
            "int8"@,
        ],
        Format::Numeric => seq!["numeric"@, "date"@],
        Format::Real => seq!["real"@, "float"@, "double"@, "decimal"@],
        Format::Boolean => seq!["boolean"@],
        Format::Text => seq![
            "text"@,
            "char"@,
            "varchar"@,
            "varying character"@,
            "nchar"@,
            "native character"@,
            "nvarchar"@,
            "clob"@,
            "timestamp"@,
        ],
        Format::Blob => seq!["blob"@],
    }
}

/// Some alias of `f` matches the (already lower-cased) declared type.
pub open spec fn has_alias(declared: Seq<char>, f: Format) -> bool {
    exists|i: int| 0 <= i < format_aliases(f).len() && alias_matches(declared, #[trigger] format_aliases(f)[i])
}

/// The format that a declared column type resolves to: the first format, in
/// declaration order, with an alias that matches the lower-cased type.
pub open spec fn resolve(declared: Seq<char>) -> Option<Format> {
    let d = ascii_lower(declared);
    if has_alias(d, Format::Integer) {
        Some(Format::Integer)
    } else if has_alias(d, Format::Numeric) {
        Some(Format::Numeric)
    } else if has_alias(d, Format::Real) {
        Some(Format::Real)
    } else if has_alias(d, Format::Boolean) {
        Some(Format::Boolean)
    } else if has_alias(d, Format::Text) {
        Some(Format::Text)
    } else if has_alias(d, Format::Blob) {
        Some(Format::Blob)
    } else {
        None
    }
}

/// A declared column type that matches no alias of any format.
pub struct UnsupportedColumnType {
    pub declared: String,
}

fn lower_char_exec(c: char) -> (r: char)
    ensures
        r == lower_char(c),
{
    if 'A' <= c && c <= 'Z' {
        ((c as u8) + 32) as char
    } else {
        c
    }
}

/// The characters of `s`, ASCII lower-cased.
fn lowercase_chars(s: &str) -> (r: Vec<char>)
    ensures
        r@ == ascii_lower(s@),
{
    let n = s.unicode_len();
    let mut r: Vec<char> = Vec::new();
    let mut i: usize = 0;
    while i < n
        invariant
            n == s@.len(),
            i <= n,
            r@ == ascii_lower(s@.subrange(0, i as int)),
        decreases n - i,
    {
        let c = s.get_char(i);
        r.push(lower_char_exec(c));
        i = i + 1;
        assert(ascii_lower(s@.subrange(0, i as int)) =~= ascii_lower(s@.subrange(0, i - 1 as int)).push(lower_char(c)));
    }
    assert(s@.subrange(0, n as int) =~= s@);
    r
}

/// The characters of `s`.
fn chars_of(s: &str) -> (r: Vec<char>)
    ensures
        r@ == s@,
{
    let n = s.unicode_len();
    let mut r: Vec<char> = Vec::new();
    let mut i: usize = 0;
    while i < n
        invariant
            n == s@.len(),
            i <= n,
            r@ == s@.subrange(0, i as int),
        decreases n - i,
    {
        r.push(s.get_char(i));
        i = i + 1;
        assert(r@ =~= s@.subrange(0, i as int));
    }
    assert(s@.subrange(0, n as int) =~= s@);
    r
}

fn starts_with_exec(s: &Vec<char>, p: &Vec<char>) -> (r: bool)
    ensures
        r == starts_with(s@, p@),
{
    if p.len() > s.len() {
        return false;
    }
    let mut i: usize = 0;
    while i < p.len()
        invariant
            p@.len() <= s@.len(),
            i <= p@.len(),
            s@.subrange(0, i as int) == p@.subrange(0, i as int),
        decreases p@.len() - i,
    {
        if s[i] != p[i] {
            assert(s@.subrange(0, p@.len() as int)[i as int] != p@[i as int]);
            return false;
        }
        i = i + 1;
        assert(s@.subrange(0, i as int) =~= p@.subrange(0, i as int));
    }
    assert(p@.subrange(0, p@.len() as int) =~= p@);
    true
}

fn alias_list(f: Format) -> (r: Vec<&'static str>)
    ensures
        r@.len() == format_aliases(f).len(),
        forall|i: int| 0 <= i < r@.len() ==> #[trigger] r@[i]@ == format_aliases(f)[i],
{
    match f {
        Format::Integer => vec![
            "integer",
            "tinyint",
            "smallint",
            "mediumint",
            "bigint",
            "unsigned big int",
            "int2",
            "int8",
        ],
        Format::Numeric => vec!["numeric", "date"],
        Format::Real => vec!["real", "float", "double", "decimal"],
        Format::Boolean => vec!["boolean"],
        Format::Text => vec![
            "text",
            "char",
            "varchar",
            "varying character",
            "nchar",
            "native character",
            "nvarchar",
            "clob",
            "timestamp",
        ],
        Format::Blob => vec!["blob"],
    }
}

fn has_alias_exec(declared: &Vec<char>, f: Format) -> (r: bool)
    ensures
        r == has_alias(declared@, f),
{
    let aliases = alias_list(f);
    let mut i: usize = 0;
    while i < aliases.len()
        invariant
            aliases@.len() == format_aliases(f).len(),
            forall|j: int| 0 <= j < aliases@.len() ==> #[trigger] aliases@[j]@ == format_aliases(f)[j],
            i <= aliases@.len(),
            forall|j: int| 0 <= j < i ==> !alias_matches(declared@, #[trigger] format_aliases(f)[j]),
        decreases aliases@.len() - i,
    {
        let alias = chars_of(aliases[i]);
        assert(alias@ == format_aliases(f)[i as int]);
        if starts_with_exec(&alias, declared) || starts_with_exec(declared, &alias) {
            return true;
        }
        i = i + 1;
    }
    false
}

/// Resolves a declared column type to its format, ignoring ASCII case.
pub fn resolve_format(declared: &str) -> (r: Result<Format, UnsupportedColumnType>)
    ensures
        match r {
            Ok(f) => resolve(declared@) == Some(f),
            Err(e) => resolve(declared@) is None && e.declared@ == declared@,
        },
{
    let d = lowercase_chars(declared);
    if has_alias_exec(&d, Format::Integer) {
        Ok(Format::Integer)
    } else if has_alias_exec(&d, Format::Numeric) {
        Ok(Format::Numeric)
    } else if has_alias_exec(&d, Format::Real) {
        Ok(Format::Real)
    } else if has_alias_exec(&d, Format::Boolean) {
        Ok(Format::Boolean)
    } else if has_alias_exec(&d, Format::Text) {
        Ok(Format::Text)
    } else if has_alias_exec(&d, Format::Blob) {
        Ok(Format::Blob)
    } else {
        Err(UnsupportedColumnType { declared: declared.to_owned() })
    }
}

impl std::str::FromStr for Format {
    type Err = UnsupportedColumnType;

    /// Resolves a declared column type as `resolve_format` does.
    fn from_str(declared: &str) -> (r: Result<Format, UnsupportedColumnType>)
        ensures
            match r {
                Ok(f) => resolve(declared@) == Some(f),
                Err(e) => resolve(declared@) is None && e.declared@ == declared@,
            },
    {
        resolve_format(declared)
    }
}

} // verus!
