use quill::style::selector::Selector;

#[test]
fn test_parse_current() {
    assert_eq!(
        "&".parse::<Selector>().unwrap(),
        Selector::Current(Box::new(Selector::Accept))
    );
}

#[test]
fn test_serialize() {
    assert_eq!(
        Selector::Current(Box::new(Selector::Accept)).to_string(),
        "&",
    );
    assert_eq!(
        Selector::Class("x".into(), Box::new(Selector::Accept)).to_string(),
        ".x",
    );
    assert_eq!(
        ".foo > &.bar".parse::<Selector>().unwrap().to_string(),
        ".foo > &.bar",
    );
    assert_eq!(
        ".foo > .bar.baz".parse::<Selector>().unwrap().to_string(),
        ".foo > .bar.baz",
    );
    assert_eq!(
        ".foo > * > .bar".parse::<Selector>().unwrap().to_string(),
        ".foo > * > .bar",
    );
    assert_eq!(
        ".foo > &.bar.baz".parse::<Selector>().unwrap().to_string(),
        ".foo > &.bar.baz",
    );
    assert_eq!(
        ".a.b.c > .d.e.f > &.g.h.i"
            .parse::<Selector>()
            .unwrap()
            .to_string(),
        ".a.b.c > .d.e.f > &.g.h.i",
    );
    assert_eq!(
        ".foo, .bar".parse::<Selector>().unwrap().to_string(),
        ".foo, .bar",
    );
}

#[test]
fn test_parse_current_class() {
    assert_eq!(
        "&.foo".parse::<Selector>().unwrap(),
        Selector::Current(Box::new(Selector::Class(
            "foo".into(),
            Box::new(Selector::Accept)
        )))
    );
}

#[test]
fn test_parse_class() {
    assert_eq!(
        ".foo".parse::<Selector>().unwrap(),
        Selector::Class("foo".into(), Box::new(Selector::Accept))
    );
}

#[test]
fn test_parse_hover() {
    assert_eq!(
        ":hover".parse::<Selector>().unwrap(),
        Selector::Hover(Box::new(Selector::Accept))
    );
    assert_eq!(
        ".foo:hover".parse::<Selector>().unwrap(),
        Selector::Hover(Box::new(Selector::Class(
            "foo".into(),
            Box::new(Selector::Accept)
        )))
    );
}

#[test]
fn test_parse_first_last_child() {
    assert_eq!(
        ":first-child".parse::<Selector>().unwrap(),
        Selector::FirstChild(Box::new(Selector::Accept))
    );
    assert_eq!(
        ".foo:first-child".parse::<Selector>().unwrap(),
        Selector::FirstChild(Box::new(Selector::Class(
            "foo".into(),
            Box::new(Selector::Accept)
        )))
    );
    assert_eq!(
        ":last-child".parse::<Selector>().unwrap(),
        Selector::LastChild(Box::new(Selector::Accept))
    );
    assert_eq!(
        ".foo:last-child".parse::<Selector>().unwrap(),
        Selector::LastChild(Box::new(Selector::Class(
            "foo".into(),
            Box::new(Selector::Accept)
        )))
    );
}

#[test]
fn test_parse_parent() {
    assert_eq!(
        "&.foo > .bar".parse::<Selector>().unwrap(),
        Selector::Class(
            "bar".into(),
            Box::new(Selector::Parent(Box::new(Selector::Current(Box::new(
                Selector::Class("foo".into(), Box::new(Selector::Accept))
            )))))
        )
    );

    assert_eq!(
        ".foo > &.bar".parse::<Selector>().unwrap(),
        Selector::Current(Box::new(Selector::Class(
            "bar".into(),
            Box::new(Selector::Parent(Box::new(Selector::Class(
                "foo".into(),
                Box::new(Selector::Accept)
            ))))
        )))
    );
}

#[test]
fn test_either() {
    assert_eq!(
        "&.foo, .bar".parse::<Selector>().unwrap(),
        Selector::Either(vec!(
            Box::new(Selector::Current(Box::new(Selector::Class(
                "foo".into(),
                Box::new(Selector::Accept)
            )))),
            Box::new(Selector::Class("bar".into(), Box::new(Selector::Accept)))
        ))
    );
}

#[test]
fn parse_empty_text_is_accept() {
    assert_eq!("".parse::<Selector>().unwrap(), Selector::Accept);
    assert_eq!("  \t ".parse::<Selector>().unwrap(), Selector::Accept);
}

#[test]
fn parse_trims_white_space() {
    assert_eq!(
        "\n  &.foo \t".parse::<Selector>().unwrap(),
        Selector::Current(Box::new(Selector::Class(
            "foo".into(),
            Box::new(Selector::Accept)
        )))
    );
}

#[test]
fn parse_rejects_trailing_text() {
    // The report quotes the trimmed text and puts a caret where the reading stopped.
    assert_eq!(".foo!".parse::<Selector>(), Err(".foo!\n    ^\n".to_string()));
    assert_eq!(" .1abc ".parse::<Selector>(), Err(".1abc\n^\n".to_string()));
    // The spaces before a missing `>` are read.
    assert_eq!(".a .b".parse::<Selector>(), Err(".a .b\n   ^\n".to_string()));
    // A text of more than one line is reported with its line and column.
    assert_eq!(
        ".a,\n.b".parse::<Selector>(),
        Err("parse error at line 1, column 4\n  |\n1 | .a,\n  |    ^\n".to_string())
    );
}

#[test]
fn parse_focus_within_is_read_as_focus() {
    // `:focus` is tried before `:focus-within`, so the longer name leaves text unread.
    assert_eq!(
        ":focus-within".parse::<Selector>(),
        Err(":focus-within\n      ^\n".to_string())
    );
    assert_eq!(
        ":focus".parse::<Selector>().unwrap(),
        Selector::Focus(Box::new(Selector::Accept))
    );
}

#[test]
fn parse_class_name_characters() {
    assert_eq!(
        ".a-b_c9".parse::<Selector>().unwrap(),
        Selector::Class("a-b_c9".into(), Box::new(Selector::Accept))
    );
}

#[test]
fn parse_star_and_repeated_parents() {
    assert_eq!(
        "* > .a".parse::<Selector>().unwrap(),
        Selector::Class(
            "a".into(),
            Box::new(Selector::Parent(Box::new(Selector::Accept)))
        )
    );
    assert_eq!(
        ".a > > .b".parse::<Selector>().unwrap(),
        Selector::Class(
            "b".into(),
            Box::new(Selector::Parent(Box::new(Selector::Parent(Box::new(
                Selector::Class("a".into(), Box::new(Selector::Accept))
            )))))
        )
    );
}

#[test]
fn parser_reports_characters_read() {
    // The spaces before the unread text are consumed, as a `>` was looked for after them.
    let (sel, n) = Selector::parser(".a, .b junk");
    assert_eq!(n, 7);
    assert_eq!(
        *sel,
        Selector::Either(vec![
            Box::new(Selector::Class("a".into(), Box::new(Selector::Accept))),
            Box::new(Selector::Class("b".into(), Box::new(Selector::Accept))),
        ])
    );
}

#[test]
fn print_pseudo_classes() {
    let sel = ".x:hover:focus:first-child:last-child"
        .parse::<Selector>()
        .unwrap();
    assert_eq!(sel.to_string(), ".x:hover:focus:first-child:last-child");
    let fw = Selector::FocusWithin(Box::new(Selector::FocusVisible(Box::new(Selector::Accept))));
    assert_eq!(fw.to_string(), ":focus-visible:focus-within");
}

#[test]
fn print_then_parse_gives_back_the_selector() {
    for text in [
        "&",
        ".a.b > &.c",
        ":hover > &",
        ".a > * > &.b",
        "&.foo, .bar:first-child, :last-child",
    ] {
        let sel = text.parse::<Selector>().unwrap();
        let again = sel.to_string().parse::<Selector>().unwrap();
        assert_eq!(sel, again);
    }
}

#[test]
fn print_then_parse_with_spaces_at_the_ends() {
    // A parent step with nothing before it prints a leading space.
    let sel = Selector::Class("a".into(), Box::new(Selector::Parent(Box::new(Selector::Accept))));
    assert_eq!(sel.to_string(), " > .a");
    assert_eq!(sel.to_string().parse::<Selector>().unwrap(), sel);
    // A bare parent step at the end prints a trailing space.
    let sel = Selector::Parent(Box::new(Selector::Class("a".into(), Box::new(Selector::Accept))));
    assert_eq!(sel.to_string(), ".a > ");
    assert_eq!(sel.to_string().parse::<Selector>().unwrap(), sel);
    // An empty last alternative leaves `, ` at the end.
    let sel = Selector::Either(vec![
        Box::new(Selector::Class("a".into(), Box::new(Selector::Accept))),
        Box::new(Selector::Accept),
    ]);
    assert_eq!(sel.to_string(), ".a, ");
    assert_eq!(sel.to_string().parse::<Selector>().unwrap(), sel);
}

#[test]
fn print_then_parse_fails_for_pseudo_classes_after_current() {
    // `&` followed by a pseudo-class prints the `&` last, which does not read back.
    let sel = "&:hover".parse::<Selector>().unwrap();
    assert_eq!(sel.to_string(), ":hover&");
    assert!(sel.to_string().parse::<Selector>().is_err());
}

#[test]
fn depth_counts_parent_steps() {
    assert_eq!(Selector::Accept.depth(), 1);
    assert_eq!(".a > .b > &".parse::<Selector>().unwrap().depth(), 3);
    assert_eq!("&, .a > &".parse::<Selector>().unwrap().depth(), 2);
    assert_eq!(Selector::Either(vec![]).depth(), 0);
}

#[test]
fn uses_hover_and_focus_within() {
    let sel = ".a:hover > &".parse::<Selector>().unwrap();
    assert!(sel.uses_hover());
    assert!(!sel.uses_focus_within());
    let sel = "&.a, .b".parse::<Selector>().unwrap();
    assert!(!sel.uses_hover());
    let fw = Selector::Parent(Box::new(Selector::FocusWithin(Box::new(Selector::Accept))));
    assert!(fw.uses_focus_within());
    assert!(!fw.uses_hover());
    assert!(Selector::Either(vec![Box::new(Selector::Accept), Box::new(fw)]).uses_focus_within());
}

#[test]
fn clone_keeps_the_selector() {
    let sel = "&.a, .b > :hover".parse::<Selector>().unwrap();
    assert_eq!(sel.clone(), sel);
}
