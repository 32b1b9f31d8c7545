use niji::parse::{build_module, parse_entries, parse_module, parse_theme, ParseFault};

fn s(x: &str) -> String {
    x.to_string()
}

fn fault_of<T>(r: Result<T, niji::theme::ParseError>) -> ParseFault {
    match r {
        Err(e) => e.fault,
        Ok(_) => panic!("expected a parse error"),
    }
}

#[test]
fn entries_skip_blanks_and_comments() {
    let es = parse_entries("# palette\n\n  bg = #000000 \r\nfg=#ffffff\n").ok().unwrap();
    assert_eq!(es, vec![(s("bg"), s("#000000")), (s("fg"), s("#ffffff"))]);
}

#[test]
fn entries_keep_value_after_first_equals() {
    let es = parse_entries("cmd = a=b").ok().unwrap();
    assert_eq!(es, vec![(s("cmd"), s("a=b"))]);
    let es = parse_entries("empty =").ok().unwrap();
    assert_eq!(es, vec![(s("empty"), s(""))]);
    assert_eq!(parse_entries("").ok().unwrap(), vec![]);
}

#[test]
fn entries_report_malformed_line() {
    assert_eq!(parse_entries("a = 1\nno equals here\nb = 2").err(), Some(2));
    assert_eq!(parse_entries("a b = 1").err(), Some(1));
    assert_eq!(parse_entries("x = 1\n\n = 3").err(), Some(3));
}

#[test]
fn theme_from_source() {
    let th = parse_theme(s("dark"), s("/themes/dark"), "bg = black\nfg = white").ok().unwrap();
    assert_eq!(th.name, s("dark"));
    assert_eq!(th.variables.get(&s("bg")).cloned(), Some(s("black")));
    assert_eq!(th.variables.get(&s("fg")).cloned(), Some(s("white")));
}

#[test]
fn theme_source_faults() {
    let r = parse_theme(s("t"), s("/themes/t"), "bg = 1\nbg = 2");
    match r {
        Err(e) => {
            assert_eq!(e.location, s("/themes/t"));
            assert!(matches!(e.fault, ParseFault::DuplicateKey(ref k) if k == "bg"));
        }
        Ok(_) => panic!("duplicate key accepted"),
    }
    assert!(matches!(fault_of(parse_theme(s("t"), s("l"), "bg 1")), ParseFault::MalformedLine(1)));
}

#[test]
fn module_from_source() {
    let text = "template = kitty.conf.tpl\noutput = ~/.config/kitty/theme.conf\n\
                template = b.tpl\noutput = /b\nreload = kill\narg = -USR1\narg = kitty\nactive = false";
    let m = parse_module(s("/modules/kitty"), text).ok().unwrap();
    assert_eq!(
        m.templates,
        vec![(s("kitty.conf.tpl"), s("~/.config/kitty/theme.conf")), (s("b.tpl"), s("/b"))]
    );
    let c = m.reload.as_ref().unwrap();
    assert_eq!(c.program, s("kill"));
    assert_eq!(c.args, vec![s("-USR1"), s("kitty")]);
    assert!(!m.active);
    let def = build_module(s("kitty"), m, vec![s("A"), s("B")]).unwrap();
    assert_eq!(def.name, s("kitty"));
    assert_eq!(def.templates[1].template, s("B"));
    assert_eq!(def.templates[1].output, s("/b"));
}

#[test]
fn module_defaults() {
    let m = parse_module(s("l"), "").ok().unwrap();
    assert!(m.active);
    assert!(m.templates.is_empty());
    assert!(m.reload.is_none());
    assert!(build_module(s("x"), m, vec![s("extra")]).is_none());
}

#[test]
fn module_source_faults() {
    assert!(matches!(fault_of(parse_module(s("l"), "colour = red")), ParseFault::UnknownKey(ref k) if k == "colour"));
    assert!(matches!(fault_of(parse_module(s("l"), "output = /x")), ParseFault::InvalidValue(ref k) if k == "output"));
    assert!(matches!(fault_of(parse_module(s("l"), "template = a")), ParseFault::InvalidValue(ref k) if k == "output"));
    assert!(matches!(fault_of(parse_module(s("l"), "arg = x")), ParseFault::InvalidValue(ref k) if k == "arg"));
    assert!(matches!(fault_of(parse_module(s("l"), "reload = a\nreload = b")), ParseFault::DuplicateKey(ref k) if k == "reload"));
    assert!(matches!(fault_of(parse_module(s("l"), "active = maybe")), ParseFault::InvalidValue(ref k) if k == "active"));
    assert!(matches!(fault_of(parse_module(s("l"), "oops")), ParseFault::MalformedLine(1)));
}
