use razel::label::{
    main_repo, main_repo_root, parse_label, ApparentLabel, ApparentRepo, CanonicalLabel,
    CanonicalRepo, Label, Repo, RepoRef,
};
use std::collections::HashMap;

#[test]
fn test_display_main_repo() {
    let label = CanonicalLabel::new(main_repo(), "my/pkg", "foo");
    assert_eq!(label.to_string(), "@@//my/pkg:foo");
}

#[test]
fn test_display_apparent_repo() {
    let label = ApparentLabel::new(ApparentRepo::new("my_repo"), "my/pkg", "foo");
    assert_eq!(label.to_string(), "@my_repo//my/pkg:foo");
}

#[test]
fn test_display_canonical_repo() {
    let label = CanonicalLabel::new(CanonicalRepo::new("my_repo_canon"), "my/pkg", "foo");
    assert_eq!(label.to_string(), "@@my_repo_canon//my/pkg:foo");
}

#[test]
fn test_display_shorthand() {
    let label = ApparentLabel::new(ApparentRepo::new("my_repo"), "my/pkg", "pkg");
    assert_eq!(label.to_string(), "@my_repo//my/pkg");
}

#[test]
fn test_display_shorthand_nopkg() {
    let label = ApparentLabel::new(ApparentRepo::new("my_repo"), "", "pkg");
    assert_eq!(label.to_string(), "@my_repo//:pkg");

    let label = ApparentLabel::new(ApparentRepo::new("my_repo"), "", "my_repo");
    assert_eq!(label.to_string(), "@my_repo//");
}

#[test]
fn test_parse_same_repo() {
    let context = CanonicalLabel::new(CanonicalRepo::new("repo"), "some/pkg", "a/target");
    let label = parse_label("//my/pkg:foo/bar", &context).unwrap();
    assert_eq!(
        label,
        Label::new(Repo::Canonical(CanonicalRepo::new("repo")), "my/pkg", "foo/bar")
    );
}

#[test]
fn test_parse_same_package() {
    let context = CanonicalLabel::new(CanonicalRepo::new("repo"), "my/pkg", "a/target");

    let label = parse_label(":foo/bar", &context).unwrap();
    assert_eq!(
        label,
        Label::new(Repo::Canonical(CanonicalRepo::new("repo")), "my/pkg", "foo/bar")
    );

    let label = parse_label("foo/bar", &context).unwrap();
    assert_eq!(
        label,
        Label::new(Repo::Canonical(CanonicalRepo::new("repo")), "my/pkg", "foo/bar")
    );
}

#[test]
fn test_parse_apparent_repo() {
    let label = parse_label("@my_repo//my/pkg:foo", &main_repo_root()).unwrap();
    assert_eq!(
        label,
        Label::new(Repo::Apparent(ApparentRepo::new("my_repo")), "my/pkg", "foo")
    );
}

#[test]
fn test_parse_canonical_repo() {
    let label = parse_label("@@my_repo_canon//my/pkg:foo", &main_repo_root()).unwrap();
    assert_eq!(
        label,
        Label::new(Repo::Canonical(CanonicalRepo::new("my_repo_canon")), "my/pkg", "foo")
    );
}

#[test]
fn test_parse_shorthand_target() {
    let label = parse_label("//my/pkg", &main_repo_root()).unwrap();
    assert_eq!(label, Label::new(Repo::Canonical(main_repo()), "my/pkg", "pkg"));
}

#[test]
fn test_parse_shorthand_target_root() {
    let label = parse_label("//:foo", &main_repo_root()).unwrap();
    assert_eq!(label, Label::new(Repo::Canonical(main_repo()), "", "foo"));
}

#[test]
fn test_parse_shorthand_target_with_repo() {
    let label = parse_label("@my_repo//my/pkg", &main_repo_root()).unwrap();
    assert_eq!(
        label,
        Label::new(Repo::Apparent(ApparentRepo::new("my_repo")), "my/pkg", "pkg")
    );
}

#[test]
fn test_to_canonical() {
    let mut repo_mapping = HashMap::new();
    repo_mapping.insert("my_repo", "my_repo_canon_v1");

    let label = ApparentLabel::new(ApparentRepo::new("my_repo"), "my/pkg", "foo");
    let canonical_label =
        label.to_canonical(|l| repo_mapping.get(l.as_str()).map(|&s| CanonicalRepo::new(s)));

    assert_eq!(
        canonical_label,
        Some(Label::new(CanonicalRepo::new("my_repo_canon_v1"), "my/pkg", "foo"))
    );

    let label = ApparentLabel::new(ApparentRepo::new("other_repo"), "my/pkg", "foo");
    let unknown_label =
        label.to_canonical(|l| repo_mapping.get(l.as_str()).map(|&s| CanonicalRepo::new(s)));

    assert_eq!(unknown_label, None);
}

#[test]
fn test_relative_target_in_package() {
    let label = Label::new(ApparentRepo::new("repo"), "foo/bar", "quux");
    assert_eq!(
        label.relative(":baz").unwrap(),
        Label::new(Repo::Apparent(ApparentRepo::new("repo")), "foo/bar", "baz")
    );
    assert_eq!(
        label.relative("baz").unwrap(),
        Label::new(Repo::Apparent(ApparentRepo::new("repo")), "foo/bar", "baz")
    );
}

#[test]
fn test_relative_absolute_path() {
    let label = Label::new(ApparentRepo::new("repo"), "foo/bar", "quux");
    assert_eq!(
        label.relative("//other:thing").unwrap(),
        Label::new(Repo::Apparent(ApparentRepo::new("repo")), "other", "thing")
    );
}

#[test]
fn test_relative_absolute_path_with_repo() {
    let label = Label::new(ApparentRepo::new("repo"), "foo/bar", "quux");
    assert_eq!(
        label.relative("@other//pkg:thing").unwrap(),
        Label::new(Repo::Apparent(ApparentRepo::new("other")), "pkg", "thing")
    );

    let label = Label::new(ApparentRepo::new("repo"), "foo/bar", "quux");
    assert_eq!(
        label.relative("@other//").unwrap(),
        Label::new(Repo::Apparent(ApparentRepo::new("other")), "", "other")
    );
}

#[test]
fn test_main_repo() {
    assert_eq!(main_repo().to_string(), "@@");
    assert_eq!(main_repo_root().to_string(), "@@//");
    assert_eq!(main_repo_root().repo_name(), "");
}

#[test]
fn test_repo_name() {
    let label_repo = Label::new(CanonicalRepo::new("my_repo"), "pkg", "tgt");
    assert_eq!(label_repo.repo_name(), "my_repo");
}

#[test]
fn test_workspace_root() {
    assert_eq!(main_repo_root().workspace_root(), "");

    let label_repo = Label::new(CanonicalRepo::new("my_repo"), "pkg", "tgt");
    assert_eq!(label_repo.workspace_root(), "external/my_repo");
}

#[test]
fn test_parse_error_empty() {
    let result = parse_label("", &main_repo_root());
    assert!(result.is_err());
    assert_eq!(
        result.unwrap_err().to_string(),
        "found end of input expected label"
    );
}

#[test]
fn test_parse_error_no_double_slash() {
    let result = parse_label("my/pkg:foo", &main_repo_root());
    assert!(result.is_err());
    assert_eq!(
        result.unwrap_err().to_string(),
        "found ':' expected valid target character, '/', or end of input"
    );
}

#[test]
fn test_parse_error_empty_target() {
    let result = parse_label("//my/pkg:", &main_repo_root());
    assert!(result.is_err());
    assert_eq!(
        result.unwrap_err().to_string(),
        "found end of input expected target name"
    );
}

#[test]
fn test_parse_error_double_slash_in_target() {
    let result = parse_label("//my/pkg:foo//bar", &main_repo_root());
    assert!(result.is_err());
    assert_eq!(
        result.unwrap_err().to_string(),
        "found '/' expected valid target character"
    );
}

#[test]
fn test_parse_error_dot_in_target() {
    let result = parse_label("//my/pkg:foo/./bar", &main_repo_root());
    assert!(result.is_err());
    assert_eq!(result.unwrap_err().to_string(), "Target can't include . or ..");

    let result = parse_label("//my/pkg:../bar", &main_repo_root());
    assert!(result.is_err());
    assert_eq!(result.unwrap_err().to_string(), "Target can't include . or ..");
}

#[test]
fn test_parse_error_trailing_slash_in_package() {
    let result = parse_label("//my/pkg/:foo", &main_repo_root());
    assert!(result.is_err());
    assert_eq!(
        result.unwrap_err().to_string(),
        "found ':' expected valid package character"
    );
}

#[test]
fn test_parse_error_trailing_slash_in_shorthand() {
    let result = parse_label("//my/pkg/", &main_repo_root());
    assert!(result.is_err());
    assert_eq!(
        result.unwrap_err().to_string(),
        "found end of input expected valid package character"
    );
}

#[test]
fn test_debug_apparent_repo() {
    let label = Label::new(ApparentRepo::new("my_repo"), "my/pkg", "foo");
    assert_eq!(label.debug_string(), "Label(\"@my_repo//my/pkg:foo\")");
}

#[test]
fn test_debug_canonical_repo() {
    let label = Label::new(CanonicalRepo::new("my_repo_canon"), "my/pkg", "foo");
    assert_eq!(label.debug_string(), "Label(\"@@my_repo_canon//my/pkg:foo\")");
}

// Printing and parsing back gives the label, whatever the context.
#[test]
fn round_trip_of_printed_labels() {
    let context = Label::new(ApparentRepo::new("ctx"), "some/where", "t");
    let labels = vec![
        Label::new(Repo::Apparent(ApparentRepo::new("a.b+c-1")), "x/y z/w", "w"),
        Label::new(Repo::Canonical(CanonicalRepo::new("")), "", ""),
        Label::new(Repo::Canonical(CanonicalRepo::new("r")), "", "r"),
        Label::new(Repo::Apparent(ApparentRepo::new("r")), "pkg", "pkg"),
        Label::new(Repo::Apparent(ApparentRepo::new("")), "p/q", "a/.b/..c~"),
        Label::new(Repo::Canonical(CanonicalRepo::new("m+1.0")), "@!/`x", "@t"),
    ];
    for l in labels {
        let text = l.to_string();
        assert_eq!(parse_label(&text, &context).unwrap(), l, "text {}", text);
    }
}

#[test]
fn shorthand_equivalence() {
    let root = main_repo_root();
    assert_eq!(
        parse_label("@my_repo//my/pkg", &root).unwrap(),
        parse_label("@my_repo//my/pkg:pkg", &root).unwrap()
    );
    assert_eq!(
        parse_label("@my_repo//", &root).unwrap(),
        parse_label("@my_repo//:my_repo", &root).unwrap()
    );
    assert!(parse_label("//my/pkg:", &root).is_err());
}

#[test]
fn relative_resolution_from_canonical_context() {
    let context = Label::new(CanonicalRepo::new("repo"), "my/pkg", "a_target");
    let expected = Label::new(Repo::Canonical(CanonicalRepo::new("repo")), "my/pkg", "baz");
    assert_eq!(context.relative(":baz").unwrap(), expected);
    assert_eq!(context.relative("baz").unwrap(), expected);
    assert_eq!(context.relative(":baz").unwrap().to_string(), "@@repo//my/pkg:baz");
    assert_eq!(
        context.relative("//other:thing").unwrap().to_string(),
        "@@repo//other:thing"
    );
    assert_eq!(
        context.relative("@other//").unwrap(),
        Label::new(Repo::Apparent(ApparentRepo::new("other")), "", "other")
    );
}

#[test]
fn rejected_inputs() {
    let root = main_repo_root();
    assert!(parse_label("", &root).is_err());
    assert!(parse_label("my/pkg:foo", &root).is_err());
    assert!(parse_label("//my/pkg:a/./b", &root).is_err());
    assert!(parse_label("//my/pkg:..", &root).is_err());
    assert!(parse_label("//my/pkg/", &root).is_err());
    assert_eq!(
        parse_label("//my/../pkg:a", &root).unwrap_err().to_string(),
        "Package can't include an all-dots segment"
    );
    assert!(parse_label("//a:b:c", &root).is_err());
}

#[test]
fn same_package_label_keeps_repo_and_package() {
    let label = Label::new(ApparentRepo::new("r"), "p/q", "t");
    let other = label.same_package_label("u".to_string());
    assert_eq!(other, Label::new(ApparentRepo::new("r"), "p/q", "u"));
    assert_eq!(other.name(), "u");
    assert_eq!(other.package(), "p/q");
}

#[test]
fn label_to_canonical_keeps_canonical_repo() {
    let label = Label::new(Repo::Canonical(CanonicalRepo::new("c")), "p", "t");
    let out = label.to_canonical(|_| None);
    assert_eq!(out, Some(Label::new(CanonicalRepo::new("c"), "p", "t")));
    let label = Label::new(Repo::Apparent(ApparentRepo::new("a")), "p", "t");
    assert_eq!(label.to_canonical(|_| None), None);
}

#[test]
fn repo_names_and_texts() {
    let a = ApparentRepo::new("x");
    assert_eq!(a.to_string(), "@x");
    assert_eq!(a.clone().into_name(), "x");
    let r = Repo::Canonical(CanonicalRepo::new("y"));
    assert_eq!(r.to_string(), "@@y");
    assert_eq!(r.as_str(), "y");
    assert_eq!(r.into_name(), "y");
    assert_ne!(
        Repo::Apparent(ApparentRepo::new("z")),
        Repo::Canonical(CanonicalRepo::new("z"))
    );
}

#[test]
fn error_positions_and_found_characters() {
    let root = main_repo_root();
    let e = parse_label("//my/pkg/:foo", &root).unwrap_err();
    assert_eq!(e.position, 9);
    assert_eq!(e.found.as_deref(), Some(":"));
    let e = parse_label("", &root).unwrap_err();
    assert_eq!(e.position, 0);
    assert_eq!(e.found, None);
}

#[test]
fn one_segment_package_prints_short() {
    let label = Label::new(Repo::Apparent(ApparentRepo::new("r")), "pkg", "pkg");
    assert_eq!(label.to_string(), "@r//pkg");
    assert_eq!(parse_label("@r//pkg", &main_repo_root()).unwrap(), label);
}
