use vinolite::format::{resolve_format, Format};

#[test]
fn resolves_every_documented_alias() {
    let table = [
        (Format::Integer, vec!["integer", "tinyint", "smallint", "mediumint", "bigint", "unsigned big int", "int2", "int8"]),
        (Format::Numeric, vec!["numeric", "date"]),
        (Format::Real, vec!["real", "float", "double", "decimal"]),
        (Format::Boolean, vec!["boolean"]),
        (Format::Text, vec!["text", "char", "varchar", "varying character", "nchar", "native character", "nvarchar", "clob", "timestamp"]),
        (Format::Blob, vec!["blob"]),
    ];
    for (format, aliases) in table {
        for alias in aliases {
            assert_eq!(resolve_format(alias).ok(), Some(format), "{alias}");
            assert_eq!(resolve_format(&alias.to_uppercase()).ok(), Some(format), "{alias}");
        }
    }
}

#[test]
fn resolution_ignores_case() {
    assert_eq!(resolve_format("INTEGER").ok(), Some(Format::Integer));
    assert_eq!(resolve_format("integer").ok(), Some(Format::Integer));
    assert_eq!(resolve_format("InTeGeR").ok(), Some(Format::Integer));
    assert_eq!(resolve_format("Text").ok(), Some(Format::Text));
}

#[test]
fn unknown_type_is_rejected() {
    let err = resolve_format("geometry").err().expect("geometry has no format");
    assert_eq!(err.declared, "geometry");
    let err = resolve_format("GEOMETRY").err().expect("GEOMETRY has no format");
    assert_eq!(err.declared, "GEOMETRY");
}

#[test]
fn prefixes_match_either_way() {
    assert_eq!(resolve_format("int").ok(), Some(Format::Integer));
    assert_eq!(resolve_format("VARCHAR(255)").ok(), Some(Format::Text));
    assert_eq!(resolve_format("datetime").ok(), Some(Format::Numeric));
    assert_eq!(resolve_format("double precision").ok(), Some(Format::Real));
    assert_eq!(resolve_format("blobs").ok(), Some(Format::Blob));
}

#[test]
fn first_declared_format_wins() {
    // The empty type is a prefix of every alias; the first format takes it.
    assert_eq!(resolve_format("").ok(), Some(Format::Integer));
    // "n" prefixes "numeric" before "nchar".
    assert_eq!(resolve_format("n").ok(), Some(Format::Numeric));
    // "d" prefixes "date" before "double".
    assert_eq!(resolve_format("d").ok(), Some(Format::Numeric));
}

#[test]
fn format_labels() {
    assert_eq!(Format::Integer.label(), "integer");
    assert_eq!(Format::Numeric.label(), "numeric");
    assert_eq!(Format::Real.label(), "real");
    assert_eq!(Format::Boolean.label(), "boolean");
    assert_eq!(Format::Text.label(), "text");
    assert_eq!(Format::Blob.label(), "blob");
}

#[test]
fn parses_through_from_str() {
    assert_eq!("BIGINT".parse::<Format>().ok(), Some(Format::Integer));
    assert!("geometry".parse::<Format>().is_err());
}

#[test]
fn from_str_examples() {
    let cases = [
        ("int", Format::Integer),
        ("integer unsigned", Format::Integer),
        ("VARCHAR(255)", Format::Text),
        ("DOUBLE PRECISION", Format::Real),
        ("DATETIME", Format::Numeric),
        ("bool", Format::Boolean),
        ("BLOB", Format::Blob),
        ("t", Format::Integer),
        ("", Format::Integer),
    ];
    for (declared, format) in cases {
        assert_eq!(declared.parse::<Format>().ok(), Some(format), "{declared}");
    }
}

#[test]
fn labels_parse_back() {
    for format in [Format::Integer, Format::Numeric, Format::Real, Format::Boolean, Format::Text, Format::Blob] {
        assert_eq!(format.label().parse::<Format>().ok(), Some(format));
    }
}
