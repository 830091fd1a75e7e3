use wrapc::{parse, Emit, Extern, Info, LibrarySearchPath, LibrarySearchPathKind, LinkLib, LinkLibKind, ParseError};

fn words(a: &[&str]) -> Vec<String> {
    a.iter().map(|s| s.to_string()).collect()
}

fn full(rest: &[&str]) -> Vec<String> {
    let mut v = words(&["wrapc", "-", "rustc"]);
    v.extend(words(rest));
    v
}

#[test]
fn long_flag_forms() {
    let info = parse(&full(&["--help", "--version", "--verbose"])).unwrap();
    assert!(info.help && info.version && info.verbose);
    assert!(!info.test && !info.opt_level && !info.debug_info);
}

#[test]
fn every_single_value_option() {
    let info = parse(&full(&[
        "--crate-name=a", "--edition", "2018", "--out-dir=od", "-o", "out", "--target=t",
        "--sysroot", "sr", "--error-format=json", "--color", "always", "--json=diag",
        "--cap-lints", "warn", "--explain=E0001", "--print", "cfg", "--unpretty=expanded",
    ]))
    .unwrap();
    assert_eq!(info.crate_name.as_deref(), Some("a"));
    assert_eq!(info.edition.as_deref(), Some("2018"));
    assert_eq!(info.out_dir.as_deref(), Some("od"));
    assert_eq!(info.out.as_deref(), Some("out"));
    assert_eq!(info.target.as_deref(), Some("t"));
    assert_eq!(info.sysroot.as_deref(), Some("sr"));
    assert_eq!(info.error_format.as_deref(), Some("json"));
    assert_eq!(info.color.as_deref(), Some("always"));
    assert_eq!(info.json.as_deref(), Some("diag"));
    assert_eq!(info.cap_lints.as_deref(), Some("warn"));
    assert_eq!(info.explain.as_deref(), Some("E0001"));
    assert_eq!(info.print.as_deref(), Some("cfg"));
    assert_eq!(info.unpretty.as_deref(), Some("expanded"));
}

#[test]
fn later_single_value_wins() {
    let info = parse(&full(&["--edition=2015", "--edition=2021", "--out", "x"])).unwrap();
    assert_eq!(info.edition.as_deref(), Some("2021"));
    assert_eq!(info.out.as_deref(), Some("x"));
}

#[test]
fn collections_keep_order() {
    let info = parse(&full(&[
        "--cfg", "a", "--cfg=b", "--check-cfg=c", "--crate-type", "lib", "--warn=w", "-A", "x",
        "--deny", "d", "-Fforb", "--codegen", "k=v", "-Z", "z1", "-Zz2",
    ]))
    .unwrap();
    assert_eq!(info.configs, vec!["a", "b"]);
    assert_eq!(info.confchecks, vec!["c"]);
    assert_eq!(info.crate_types, vec!["lib"]);
    assert_eq!(info.warns, vec!["w"]);
    assert_eq!(info.allows, vec!["x"]);
    assert_eq!(info.denies, vec!["d"]);
    assert_eq!(info.forbids, vec!["forb"]);
    assert_eq!(info.codegen_opts, vec!["k=v"]);
    assert_eq!(info.z_opts, vec!["z1", "z2"]);
}

#[test]
fn search_path_kinds() {
    let info = parse(&full(&[
        "-Lcrate=c", "-L", "framework=f", "-Lother=o", "-L=eq", "-Ldependency=a=b",
    ]))
    .unwrap();
    let kinds: Vec<LibrarySearchPathKind> = info.libpaths.iter().map(|l| l.kind).collect();
    let paths: Vec<&str> = info.libpaths.iter().map(|l| l.path.as_str()).collect();
    assert_eq!(
        kinds,
        vec![
            LibrarySearchPathKind::Crate,
            LibrarySearchPathKind::Framework,
            LibrarySearchPathKind::All,
            LibrarySearchPathKind::All,
            LibrarySearchPathKind::Dep,
        ]
    );
    assert_eq!(paths, vec!["c", "f", "o", "eq", "a=b"]);
}

#[test]
fn link_forms() {
    let info = parse(&full(&["-ldylib=d", "-lframework=Cocoa", "-lweird:m1,m2=n", "-l", "plain:r:s"]))
        .unwrap();
    assert_eq!(info.links[0].kind, Some(LinkLibKind::Dylib));
    assert_eq!(info.links[0].name, "d");
    assert_eq!(info.links[1].kind, Some(LinkLibKind::Framework));
    assert_eq!(info.links[2].kind, None);
    assert_eq!(info.links[2].modifiers, vec!["m1", "m2"]);
    assert_eq!(info.links[2].name, "n");
    assert_eq!(info.links[3].kind, None);
    assert_eq!(info.links[3].name, "plain");
    assert_eq!(info.links[3].rename.as_deref(), Some("r:s"));
}

#[test]
fn remap_needs_equals() {
    let info = parse(&full(&["--remap-path-prefix", "a=b=c", "--remap-path-prefix=nothing"])).unwrap();
    assert_eq!(info.remap_path_prefixes, vec![("a".to_string(), "b=c".to_string())]);
}

#[test]
fn emit_pieces() {
    let info = parse(&full(&["--emit", "asm,,obj=o.o", "--emit=mir"])).unwrap();
    let kinds: Vec<&str> = info.emits.iter().map(|e| e.kind.as_str()).collect();
    assert_eq!(kinds, vec!["asm", "", "obj", "mir"]);
    assert_eq!(info.emits[2].path.as_deref(), Some("o.o"));
}

#[test]
fn dash_words_and_inputs() {
    let info = parse(&full(&["-x", "-", "a=b", "-Q", "lib.rs"])).unwrap();
    assert_eq!(info.unknown, vec!["-x", "-", "-Q"]);
    assert_eq!(info.inputs, vec!["a=b", "lib.rs"]);
}

#[test]
fn value_keys_at_the_end() {
    let info = parse(&full(&["-L"])).unwrap();
    assert_eq!(info.unknown, vec!["-L"]);
    assert!(info.libpaths.is_empty());
}

#[test]
fn key_with_equals_and_space_agree() {
    for key in ["--crate-name", "--cfg", "-W", "--extern", "-l", "-L", "--emit", "-o"] {
        let joined = parse(&full(&[&format!("{}=x=y", key), "tail"])).unwrap();
        let spaced = parse(&full(&[key, "x=y", "tail"])).unwrap();
        assert_eq!(joined, spaced, "{}", key);
    }
}

#[test]
fn to_args_exact_text() {
    let mut info = Info::default();
    info.help = true;
    info.debug_info = true;
    info.crate_name = Some("c".to_string());
    info.out = Some("o".to_string());
    info.configs = vec!["f".to_string()];
    info.emits = vec![
        Emit { kind: "link".to_string(), path: None },
        Emit { kind: "dep-info".to_string(), path: Some("d".to_string()) },
    ];
    info.externs = vec![
        Extern { name: "a".to_string(), path: Some("p".to_string()) },
        Extern { name: "b".to_string(), path: None },
    ];
    info.remap_path_prefixes = vec![("x".to_string(), "y".to_string())];
    info.libpaths = vec![
        LibrarySearchPath { kind: LibrarySearchPathKind::All, path: "/a".to_string() },
        LibrarySearchPath { kind: LibrarySearchPathKind::Native, path: "/n".to_string() },
    ];
    info.links = vec![
        LinkLib { kind: None, modifiers: vec![], name: "z".to_string(), rename: None },
        LinkLib {
            kind: Some(LinkLibKind::Static),
            modifiers: vec!["+bundle".to_string(), "-verbatim".to_string()],
            name: "m".to_string(),
            rename: Some("r".to_string()),
        },
    ];
    info.warns = vec!["w".to_string()];
    info.z_opts = vec!["zz".to_string()];
    info.unknown = vec!["--".to_string()];
    info.inputs = vec!["main.rs".to_string()];
    assert_eq!(
        info.to_args(),
        vec![
            "--help", "-g", "--crate-name=c", "-o", "o", "--cfg=f", "--emit=link,dep-info=d",
            "--extern=a=p", "--extern=b", "--remap-path-prefix=x=y", "-L/a", "-Lnative=/n", "-lz",
            "-lstatic:+bundle,-verbatim=m:r", "-Ww", "-Zzz", "main.rs", "--",
        ]
    );
}

#[test]
fn default_info_gives_no_args() {
    assert!(Info::default().to_args().is_empty());
}

#[test]
fn roundtrip_of_a_rich_line() {
    let a = full(&[
        "-O", "--test", "--target", "x86_64", "--cfg=feature=\"std\"", "--check-cfg", "cfg(x)",
        "--crate-type=rlib", "--emit=obj=a.o,metadata", "--extern", "dep=/p/libdep.rlib",
        "--extern=noarg", "--remap-path-prefix=/home=/src", "-Lcrate=/c", "-L", "/plain",
        "-lframework=F", "-l:renamed", "-Aunused", "-D", "warnings", "-Cdebuginfo=2",
        "@resp", "-unknownflag", "lib.rs",
    ]);
    let info1 = parse(&a).unwrap();
    let mut b = words(&["w", "-"]);
    b.push(info1.rustc.clone().unwrap());
    b.extend(info1.to_args());
    let info2 = parse(&b).unwrap();
    assert_eq!(info1, info2);
}

#[test]
fn output_path_is_written_as_its_own_word() {
    let info1 = parse(&full(&["-o", "-dash.out", "--out=x", "-o=y", "main.rs"])).unwrap();
    assert_eq!(info1.out, Some("y".to_string()));
    let args = info1.to_args();
    assert_eq!(args, vec!["-o", "y", "main.rs"]);
    assert!(args.iter().all(|a| !a.starts_with("-o=")));
    let mut info2 = Info::default();
    info2.rustc = Some("rustc".to_string());
    info2.out = Some("-dash.out".to_string());
    let mut b = words(&["w", "-", "rustc"]);
    b.extend(info2.to_args());
    assert_eq!(parse(&b).unwrap(), info2);
}

#[test]
fn roundtrip_of_a_bare_search_path_with_equals() {
    let mut info = Info::default();
    info.rustc = Some("rustc".to_string());
    info.libpaths = vec![LibrarySearchPath { kind: LibrarySearchPathKind::All, path: "a=b".to_string() }];
    assert_eq!(info.to_args(), vec!["-L", "=a=b"]);
    let mut b = words(&["w", "-", "rustc"]);
    b.extend(info.to_args());
    assert_eq!(parse(&b).unwrap(), info);
}

fn reparse(info: &Info) -> Info {
    let mut b = words(&["w", "-"]);
    b.push(info.rustc.clone().unwrap());
    b.extend(info.to_args());
    parse(&b).unwrap()
}

#[test]
fn roundtrip_keeps_inputs_before_double_dash() {
    let info = parse(&full(&["m.rs", "--", "x"])).unwrap();
    assert_eq!(info.inputs, vec!["m.rs"]);
    assert_eq!(info.unknown, vec!["--", "x"]);
    assert_eq!(info.to_args(), vec!["m.rs", "--", "x"]);
    assert_eq!(reparse(&info), info);
}

#[test]
fn roundtrip_keeps_a_trailing_key_last() {
    let info = parse(&full(&["m.rs", "--crate-name"])).unwrap();
    assert_eq!(info.crate_name, None);
    assert_eq!(info.to_args(), vec!["m.rs", "--crate-name"]);
    assert_eq!(reparse(&info), info);
}

#[test]
fn odd_lint_values_are_written_apart() {
    let info = parse(&full(&["-W", "", "-A", "=x", "-Cdebuginfo=2"])).unwrap();
    assert_eq!(info.warns, vec![""]);
    assert_eq!(info.allows, vec!["=x"]);
    assert_eq!(info.to_args(), vec!["-W", "", "-A", "=x", "-Cdebuginfo=2"]);
    assert_eq!(reparse(&info), info);
}

#[test]
fn odd_search_paths_and_links_read_back() {
    let info = parse(&full(&["-L", "", "-L", "a=b=c", "-l", "x:+m=bar", "-l", "y=a=b", "-l", ""])).unwrap();
    assert_eq!(info.libpaths[1].path, "b=c");
    assert_eq!(info.links[0].kind, None);
    assert_eq!(info.links[0].modifiers, vec!["+m"]);
    assert_eq!(info.links[1].name, "a=b");
    assert_eq!(
        info.to_args(),
        vec!["-L", "=", "-L", "=b=c", "-l", ":+m=bar", "-l", "=a=b", "-l", "="]
    );
    assert_eq!(reparse(&info), info);
}

#[test]
fn double_dash_appends_the_rest_verbatim() {
    let a = full(&["--cfg=x", "-O", "m.rs"]);
    let before = parse(&a).unwrap();
    let mut b = a.clone();
    b.extend(words(&["--", "-W", "y", "--cfg=z"]));
    let after = parse(&b).unwrap();
    let mut expected = before.clone();
    expected.unknown.extend(words(&["--", "-W", "y", "--cfg=z"]));
    assert_eq!(after, expected);
}

#[test]
fn error_messages() {
    assert_eq!(ParseError::MissingValue("--cfg".to_string()).message(), "missing value for argument `--cfg`");
    assert_eq!(ParseError::Unknown.message(), "unknown parse error");
}

#[test]
fn default_parts() {
    assert_eq!(LibrarySearchPathKind::default(), LibrarySearchPathKind::All);
    assert_eq!(LinkLibKind::default(), LinkLibKind::Dylib);
    assert_eq!(LinkLib::default().name, "");
    assert_eq!(Emit::default().path, None);
    assert_eq!(Extern::default().name, "");
    assert_eq!(LibrarySearchPath::default().path, "");
}

#[test]
fn roundtrip_with_a_trailing_key() {
    let info1 = parse(&full(&["--cfg=x", "-Zunstable", "--crate-name"])).unwrap();
    assert_eq!(info1.unknown, vec!["--crate-name"]);
    let mut b = words(&["w", "-"]);
    b.push(info1.rustc.clone().unwrap());
    b.extend(info1.to_args());
    assert_eq!(parse(&b).unwrap(), info1);
}

#[test]
fn roundtrip_after_double_dash() {
    let info1 = parse(&full(&["--test", "--", "x.rs", "--cfg=y"])).unwrap();
    assert!(info1.inputs.is_empty());
    let mut b = words(&["w", "-"]);
    b.push(info1.rustc.clone().unwrap());
    b.extend(info1.to_args());
    assert_eq!(parse(&b).unwrap(), info1);
}
