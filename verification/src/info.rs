//! The parsed form of a `rustc` command line, and its reconstruction into
//! arguments.

use vstd::prelude::*;

use crate::text::{begins_with, concat, find_char, join, join_commas, lemma_first_index, owned};

verus! {

/// Kind of library search path passed via `-L`.
#[derive(Debug, Clone, Copy, PartialEq, Eq, Structural)]
pub enum LibrarySearchPathKind {
    /// This value means "all except Framework".
    All,
    /// Dependency.
    Dep,
    /// Crate.
    Crate,
    /// Native.
    Native,
    /// MacOS Framework.
    Framework,
}

/// Just a convenient shortcut to [`LibrarySearchPathKind`].
pub type LSPK = LibrarySearchPathKind;

/// Represents a parsed `-L [KIND=]PATH` argument.
#[derive(Debug, Clone, PartialEq, Eq)]
pub struct LibrarySearchPath {
    /// Library search path kind.
    pub kind: LibrarySearchPathKind,
    /// Path value.
    pub path: String,
}

/// Just a convenient shortcut to [`LibrarySearchPath`].
pub type LSP = LibrarySearchPath;

/// Kind of native library passed via `-l`.
#[derive(Debug, Clone, Copy, PartialEq, Eq, Structural)]
pub enum LinkLibKind {
    /// Dynamic-linking library.
    Dylib,
    /// Static-linking library.
    Static,
    /// MacOS Framework.
    Framework,
}

/// Just a convenient shortcut to [`LinkLibKind`].
pub type LLK = LinkLibKind;

/// Represents a parsed `-l [KIND[:MODIFIERS]=]NAME[:RENAME]` argument.
#[derive(Debug, Clone, PartialEq, Eq)]
pub struct LinkLib {
    /// Library linkage kind.
    pub kind: Option<LinkLibKind>,
    /// Library linkage modifiers.
    pub modifiers: Vec<String>,
    /// Name of library link to.
    pub name: String,
    /// Re-name of library link to.
    pub rename: Option<String>,
}

/// Just a convenient shortcut to [`LinkLib`].
pub type LL = LinkLib;

/// Represents a parsed `--emit` directive.
#[derive(Debug, Clone, PartialEq, Eq)]
pub struct Emit {
    /// Emission kind.
    pub kind: String,
    /// Path.
    pub path: Option<String>,
}

/// Represents a parsed `--extern` directive.
#[derive(Debug, Clone, PartialEq, Eq)]
pub struct Extern {
    /// Extern name.
    pub name: String,
    /// Path.
    pub path: Option<String>,
}

/// The core structure containing all parsed `rustc` arguments.
#[derive(Debug, Clone, PartialEq, Eq)]
pub struct Info {
    /// The wrapped rustc path (extracted according to Cargo's
    /// `RUSTC_WRAPPER` protocol: `<wrapper> - <rustc> <args>`)
    pub rustc: Option<String>,
    /// Positional input files
    pub inputs: Vec<String>,
    /// `--help` present.
    pub help: bool,
    /// `-V` present.
    pub version: bool,
    /// `-v` present.
    pub verbose: bool,
    /// `--test` present.
    pub test: bool,
    /// `-O` present.
    pub opt_level: bool,
    /// `-g` present.
    pub debug_info: bool,
    /// `--crate-name`
    pub crate_name: Option<String>,
    /// `--edition`
    pub edition: Option<String>,
    /// `--out-dir`
    pub out_dir: Option<String>,
    /// `-o` / `--out`
    pub out: Option<String>,
    /// `--target`
    pub target: Option<String>,
    /// `--sysroot`
    pub sysroot: Option<String>,
    /// `--error-format`
    pub error_format: Option<String>,
    /// `--color`
    pub color: Option<String>,
    /// `--json`
    pub json: Option<String>,
    /// `--cap-lints`
    pub cap_lints: Option<String>,
    /// `--explain`
    pub explain: Option<String>,
    /// `--print`
    pub print: Option<String>,
    /// `--unpretty`
    pub unpretty: Option<String>,
    /// `--cfg`
    pub configs: Vec<String>,
    /// `--check-cfg`
    pub confchecks: Vec<String>,
    /// `--crate-type`
    pub crate_types: Vec<String>,
    /// `--emit`
    pub emits: Vec<Emit>,
    /// `--extern`
    pub externs: Vec<Extern>,
    /// `--remap-path-prefix`
    pub remap_path_prefixes: Vec<(String, String)>,
    /// `-L`
    pub libpaths: Vec<LibrarySearchPath>,
    /// `-l`
    pub links: Vec<LinkLib>,
    /// `-W` / `--warn`
    pub warns: Vec<String>,
    /// `-A` / `--allow`
    pub allows: Vec<String>,
    /// `-D` / `--deny`
    pub denies: Vec<String>,
    /// `-F` / `--forbid`
    pub forbids: Vec<String>,
    /// `-C` / `--codegen`
    pub codegen_opts: Vec<String>,
    /// `-Z`
    pub z_opts: Vec<String>,
    /// Everything that was not recognised, in order.
    pub unknown: Vec<String>,
}

// ---------------------------------------------------------------------
// Mathematical model of the parsed arguments.
// ---------------------------------------------------------------------

/// The characters of each word.
pub open spec fn words(v: Seq<String>) -> Seq<Seq<char>> {
    v.map_values(|s: String| s@)
}

/// Model of a [`LibrarySearchPath`].
pub struct LibrarySearchPathView {
    pub kind: LibrarySearchPathKind,
    pub path: Seq<char>,
}

/// Model of a [`LinkLib`].
pub struct LinkLibView {
    pub kind: Option<LinkLibKind>,
    pub modifiers: Seq<Seq<char>>,
    pub name: Seq<char>,
    pub rename: Option<Seq<char>>,
}

/// Model of an [`Emit`].
pub struct EmitView {
    pub kind: Seq<char>,
    pub path: Option<Seq<char>>,
}

/// Model of an [`Extern`].
pub struct ExternView {
    pub name: Seq<char>,
    pub path: Option<Seq<char>>,
}

/// Model of an [`Info`]: every string is its characters.
pub struct InfoView {
    pub rustc: Option<Seq<char>>,
    pub inputs: Seq<Seq<char>>,
    pub help: bool,
    pub version: bool,
    pub verbose: bool,
    pub test: bool,
    pub opt_level: bool,
    pub debug_info: bool,
    pub crate_name: Option<Seq<char>>,
    pub edition: Option<Seq<char>>,
    pub out_dir: Option<Seq<char>>,
    pub out: Option<Seq<char>>,
    pub target: Option<Seq<char>>,
    pub sysroot: Option<Seq<char>>,
    pub error_format: Option<Seq<char>>,
    pub color: Option<Seq<char>>,
    pub json: Option<Seq<char>>,
    pub cap_lints: Option<Seq<char>>,
    pub explain: Option<Seq<char>>,
    pub print: Option<Seq<char>>,
    pub unpretty: Option<Seq<char>>,
    pub configs: Seq<Seq<char>>,
    pub confchecks: Seq<Seq<char>>,
    pub crate_types: Seq<Seq<char>>,
    pub emits: Seq<EmitView>,
    pub externs: Seq<ExternView>,
    pub remap_path_prefixes: Seq<(Seq<char>, Seq<char>)>,
    pub libpaths: Seq<LibrarySearchPathView>,
    pub links: Seq<LinkLibView>,
    pub warns: Seq<Seq<char>>,
    pub allows: Seq<Seq<char>>,
    pub denies: Seq<Seq<char>>,
    pub forbids: Seq<Seq<char>>,
    pub codegen_opts: Seq<Seq<char>>,
    pub z_opts: Seq<Seq<char>>,
    pub unknown: Seq<Seq<char>>,
}

impl View for LibrarySearchPath {
    type V = LibrarySearchPathView;

    open spec fn view(&self) -> LibrarySearchPathView {
        LibrarySearchPathView { kind: self.kind, path: self.path@ }
    }
}

impl View for LinkLib {
    type V = LinkLibView;

    open spec fn view(&self) -> LinkLibView {
        LinkLibView {
            kind: self.kind,
            modifiers: words(self.modifiers@),
            name: self.name@,
            rename: self.rename.deep_view(),
        }
    }
}

impl View for Emit {
    type V = EmitView;

    open spec fn view(&self) -> EmitView {
        EmitView { kind: self.kind@, path: self.path.deep_view() }
    }
}

impl View for Extern {
    type V = ExternView;

    open spec fn view(&self) -> ExternView {
        ExternView { name: self.name@, path: self.path.deep_view() }
    }
}

impl View for Info {
    type V = InfoView;

    open spec fn view(&self) -> InfoView {
        InfoView {
            rustc: self.rustc.deep_view(),
            inputs: words(self.inputs@),
            help: self.help,
            version: self.version,
            verbose: self.verbose,
            test: self.test,
            opt_level: self.opt_level,
            debug_info: self.debug_info,
            crate_name: self.crate_name.deep_view(),
            edition: self.edition.deep_view(),
            out_dir: self.out_dir.deep_view(),
            out: self.out.deep_view(),
            target: self.target.deep_view(),
            sysroot: self.sysroot.deep_view(),
            error_format: self.error_format.deep_view(),
            color: self.color.deep_view(),
            json: self.json.deep_view(),
            cap_lints: self.cap_lints.deep_view(),
            explain: self.explain.deep_view(),
            print: self.print.deep_view(),
            unpretty: self.unpretty.deep_view(),
            configs: words(self.configs@),
            confchecks: words(self.confchecks@),
            crate_types: words(self.crate_types@),
            emits: self.emits@.map_values(|e: Emit| e@),
            externs: self.externs@.map_values(|e: Extern| e@),
            remap_path_prefixes: self.remap_path_prefixes@.map_values(|p: (String, String)| p@),
            libpaths: self.libpaths@.map_values(|l: LibrarySearchPath| l@),
            links: self.links@.map_values(|l: LinkLib| l@),
            warns: words(self.warns@),
            allows: words(self.allows@),
            denies: words(self.denies@),
            forbids: words(self.forbids@),
            codegen_opts: words(self.codegen_opts@),
            z_opts: words(self.z_opts@),
            unknown: words(self.unknown@),
        }
    }
}

/// Two models that agree field by field, lists item by item.
pub open spec fn same_info(a: InfoView, b: InfoView) -> bool {
    &&& a.rustc == b.rustc
    &&& a.inputs =~= b.inputs
    &&& a.help == b.help
    &&& a.version == b.version
    &&& a.verbose == b.verbose
    &&& a.test == b.test
    &&& a.opt_level == b.opt_level
    &&& a.debug_info == b.debug_info
    &&& a.crate_name == b.crate_name
    &&& a.edition == b.edition
    &&& a.out_dir == b.out_dir
    &&& a.out == b.out
    &&& a.target == b.target
    &&& a.sysroot == b.sysroot
    &&& a.error_format == b.error_format
    &&& a.color == b.color
    &&& a.json == b.json
    &&& a.cap_lints == b.cap_lints
    &&& a.explain == b.explain
    &&& a.print == b.print
    &&& a.unpretty == b.unpretty
    &&& a.configs =~= b.configs
    &&& a.confchecks =~= b.confchecks
    &&& a.crate_types =~= b.crate_types
    &&& a.emits =~= b.emits
    &&& a.externs =~= b.externs
    &&& a.remap_path_prefixes =~= b.remap_path_prefixes
    &&& a.libpaths =~= b.libpaths
    &&& a.links =~= b.links
    &&& a.warns =~= b.warns
    &&& a.allows =~= b.allows
    &&& a.denies =~= b.denies
    &&& a.forbids =~= b.forbids
    &&& a.codegen_opts =~= b.codegen_opts
    &&& a.z_opts =~= b.z_opts
    &&& a.unknown =~= b.unknown
}

/// Models that agree field by field are equal.
pub proof fn lemma_same_info(a: InfoView, b: InfoView)
    requires
        same_info(a, b),
    ensures
        a == b,
{
}

/// An `Info` with nothing set.
pub open spec fn empty_info() -> InfoView {
    InfoView {
        rustc: None,
        inputs: seq![],
        help: false,
        version: false,
        verbose: false,
        test: false,
        opt_level: false,
        debug_info: false,
        crate_name: None,
        edition: None,
        out_dir: None,
        out: None,
        target: None,
        sysroot: None,
        error_format: None,
        color: None,
        json: None,
        cap_lints: None,
        explain: None,
        print: None,
        unpretty: None,
        configs: seq![],
        confchecks: seq![],
        crate_types: seq![],
        emits: seq![],
        externs: seq![],
        remap_path_prefixes: seq![],
        libpaths: seq![],
        links: seq![],
        warns: seq![],
        allows: seq![],
        denies: seq![],
        forbids: seq![],
        codegen_opts: seq![],
        z_opts: seq![],
        unknown: seq![],
    }
}

impl Default for LibrarySearchPathKind {
    fn default() -> (r: Self)
        ensures
            r == LibrarySearchPathKind::All,
    {
        LibrarySearchPathKind::All
    }
}

impl Default for LinkLibKind {
    fn default() -> (r: Self)
        ensures
            r == LinkLibKind::Dylib,
    {
        LinkLibKind::Dylib
    }
}

impl Default for LibrarySearchPath {
    fn default() -> (r: Self)
        ensures
            r@ == (LibrarySearchPathView { kind: LibrarySearchPathKind::All, path: seq![] }),
    {
        LibrarySearchPath { kind: LibrarySearchPathKind::All, path: String::new() }
    }
}

impl Default for LinkLib {
    fn default() -> (r: Self)
        ensures
            r@ == (LinkLibView { kind: None, modifiers: seq![], name: seq![], rename: None }),
    {
        let r = LinkLib { kind: None, modifiers: Vec::new(), name: String::new(), rename: None };
        assert(r@.modifiers =~= seq![]);
        r
    }
}

impl Default for Emit {
    fn default() -> (r: Self)
        ensures
            r@ == (EmitView { kind: seq![], path: None }),
    {
        Emit { kind: String::new(), path: None }
    }
}

impl Default for Extern {
    fn default() -> (r: Self)
        ensures
            r@ == (ExternView { name: seq![], path: None }),
    {
        Extern { name: String::new(), path: None }
    }
}

impl Default for Info {
    fn default() -> (r: Self)
        ensures
            r@ == empty_info(),
    {
        let r = Info {
            rustc: None,
            inputs: Vec::new(),
            help: false,
            version: false,
            verbose: false,
            test: false,
            opt_level: false,
            debug_info: false,
            crate_name: None,
            edition: None,
            out_dir: None,
            out: None,
            target: None,
            sysroot: None,
            error_format: None,
            color: None,
            json: None,
            cap_lints: None,
            explain: None,
            print: None,
            unpretty: None,
            configs: Vec::new(),
            confchecks: Vec::new(),
            crate_types: Vec::new(),
            emits: Vec::new(),
            externs: Vec::new(),
            remap_path_prefixes: Vec::new(),
            libpaths: Vec::new(),
            links: Vec::new(),
            warns: Vec::new(),
            allows: Vec::new(),
            denies: Vec::new(),
            forbids: Vec::new(),
            codegen_opts: Vec::new(),
            z_opts: Vec::new(),
            unknown: Vec::new(),
        };
        assert(same_info(r@, empty_info()));
        proof {
            lemma_same_info(r@, empty_info());
        }
        r
    }
}

// ---------------------------------------------------------------------
// Reconstruction of the arguments.
// ---------------------------------------------------------------------

/// `[w]` when `on`, nothing otherwise.
pub open spec fn flag_word(on: bool, w: Seq<char>) -> Seq<Seq<char>> {
    if on {
        seq![w]
    } else {
        seq![]
    }
}

/// `[key, v]` when there is a value `v`, nothing otherwise.
pub open spec fn spaced_words(key: Seq<char>, v: Option<Seq<char>>) -> Seq<Seq<char>> {
    match v {
        Some(x) => seq![key, x],
        None => seq![],
    }
}

/// `[prefix + v]` when there is a value `v`, nothing otherwise.
pub open spec fn value_word(prefix: Seq<char>, v: Option<Seq<char>>) -> Seq<Seq<char>> {
    match v {
        Some(x) => seq![prefix + x],
        None => seq![],
    }
}

/// Each value with `prefix` in front of it.
pub open spec fn prefixed(prefix: Seq<char>, vals: Seq<Seq<char>>) -> Seq<Seq<char>> {
    vals.map_values(|v: Seq<char>| prefix + v)
}

/// `KIND` or `KIND=PATH`.
pub open spec fn emit_text(e: EmitView) -> Seq<char> {
    match e.path {
        Some(p) => e.kind + seq!['='] + p,
        None => e.kind,
    }
}

/// One `--emit=` argument listing every emission, or nothing when there is none.
pub open spec fn emit_words(emits: Seq<EmitView>) -> Seq<Seq<char>> {
    if emits.len() == 0 {
        seq![]
    } else {
        seq!["--emit="@ + join(emits.map_values(|e: EmitView| emit_text(e)), ',')]
    }
}

/// `--extern=NAME` or `--extern=NAME=PATH`.
pub open spec fn extern_word(x: ExternView) -> Seq<char> {
    match x.path {
        Some(p) => "--extern="@ + x.name + seq!['='] + p,
        None => "--extern="@ + x.name,
    }
}

/// `--remap-path-prefix=FROM=TO`.
pub open spec fn remap_word(r: (Seq<char>, Seq<char>)) -> Seq<char> {
    "--remap-path-prefix="@ + r.0 + seq!['='] + r.1
}

/// The `KIND=` part of a `-L` argument.
pub open spec fn search_kind_text(k: LibrarySearchPathKind) -> Seq<char> {
    match k {
        LibrarySearchPathKind::All => seq![],
        LibrarySearchPathKind::Dep => "dependency="@,
        LibrarySearchPathKind::Crate => "crate="@,
        LibrarySearchPathKind::Native => "native="@,
        LibrarySearchPathKind::Framework => "framework="@,
    }
}

/// `-L[KIND=]PATH`.
pub open spec fn libpath_word(l: LibrarySearchPathView) -> Seq<char> {
    "-L"@ + search_kind_text(l.kind) + l.path
}

/// The name of a link kind.
pub open spec fn link_kind_text(k: LinkLibKind) -> Seq<char> {
    match k {
        LinkLibKind::Dylib => "dylib"@,
        LinkLibKind::Static => "static"@,
        LinkLibKind::Framework => "framework"@,
    }
}

/// The `KIND[:MODIFIERS]=` part of a `-l` argument; empty without a kind.
pub open spec fn link_head(l: LinkLibView) -> Seq<char> {
    match l.kind {
        Some(k) => link_kind_text(k) + (if l.modifiers.len() > 0 {
            seq![':'] + join(l.modifiers, ',')
        } else {
            seq![]
        }) + seq!['='],
        None => seq![],
    }
}

/// The `:RENAME` part of a `-l` argument.
pub open spec fn rename_text(r: Option<Seq<char>>) -> Seq<char> {
    match r {
        Some(x) => seq![':'] + x,
        None => seq![],
    }
}

/// `-l[KIND[:MODIFIERS]=]NAME[:RENAME]`.
pub open spec fn link_word(l: LinkLibView) -> Seq<char> {
    "-l"@ + link_head(l) + l.name + rename_text(l.rename)
}

/// A value that can stand right after its one-letter key in one word: not
/// empty and not starting with `=`.
pub open spec fn attachable(v: Seq<char>) -> bool {
    v.len() > 0 && v[0] != '='
}

/// `KEYVALUE` as one word when the value can be attached, `KEY VALUE` as
/// two words otherwise.
pub open spec fn attached_item(key: Seq<char>, v: Seq<char>) -> Seq<Seq<char>> {
    if attachable(v) {
        seq![key + v]
    } else {
        seq![key, v]
    }
}

/// The words of each value after its one-letter key, in order.
pub open spec fn attached_words(key: Seq<char>, vals: Seq<Seq<char>>) -> Seq<Seq<char>>
    decreases vals.len(),
{
    if vals.len() == 0 {
        seq![]
    } else {
        attached_words(key, vals.drop_last()) + attached_item(key, vals.last())
    }
}

/// A search path that `-L` can carry in the same word: one with a kind, or
/// a path that is not empty and has no `=`.
pub open spec fn libpath_attachable(l: LibrarySearchPathView) -> bool {
    l.kind == LibrarySearchPathKind::All ==> (l.path.len() > 0 && !l.path.contains('='))
}

/// `-L[KIND=]PATH` in one word when it can be, otherwise `-L` and `=PATH`.
pub open spec fn libpath_item(l: LibrarySearchPathView) -> Seq<Seq<char>> {
    if libpath_attachable(l) {
        seq![libpath_word(l)]
    } else {
        seq!["-L"@, seq!['='] + l.path]
    }
}

/// The words of each search path, in order.
pub open spec fn libpath_words(ls: Seq<LibrarySearchPathView>) -> Seq<Seq<char>>
    decreases ls.len(),
{
    if ls.len() == 0 {
        seq![]
    } else {
        libpath_words(ls.drop_last()) + libpath_item(ls.last())
    }
}

/// A linked library that `-l` can carry in the same word: one with a kind,
/// or a name and rename without `=`, no modifiers, and something to write.
pub open spec fn link_attachable(l: LinkLibView) -> bool {
    l.kind is Some || {
        &&& l.modifiers.len() == 0
        &&& !l.name.contains('=')
        &&& l.rename matches Some(r) ==> !r.contains('=')
        &&& (l.name.len() > 0 || l.rename is Some)
    }
}

/// The value after a separate `-l` for a library without a kind:
/// `[:MODIFIERS]=NAME[:RENAME]`, whose empty kind reads as none.
pub open spec fn link_value(l: LinkLibView) -> Seq<char> {
    (if l.modifiers.len() > 0 {
        seq![':'] + join(l.modifiers, ',')
    } else {
        seq![]
    }) + seq!['='] + l.name + rename_text(l.rename)
}

/// `-l...` in one word when it can be, otherwise `-l` and its value.
pub open spec fn link_item(l: LinkLibView) -> Seq<Seq<char>> {
    if link_attachable(l) {
        seq![link_word(l)]
    } else {
        seq!["-l"@, link_value(l)]
    }
}

/// The words of each linked library, in order.
pub open spec fn link_words(ls: Seq<LinkLibView>) -> Seq<Seq<char>>
    decreases ls.len(),
{
    if ls.len() == 0 {
        seq![]
    } else {
        link_words(ls.drop_last()) + link_item(ls.last())
    }
}

/// Adding a value adds its words.
pub proof fn lemma_attached_words_push(key: Seq<char>)
    ensures
        forall|vs: Seq<Seq<char>>, x: Seq<char>|
            #[trigger] attached_words(key, vs.push(x)) == attached_words(key, vs) + attached_item(key, x),
{
    assert forall|vs: Seq<Seq<char>>, x: Seq<char>|
        #[trigger] attached_words(key, vs.push(x)) == attached_words(key, vs) + attached_item(key, x) by {
        assert(vs.push(x).drop_last() =~= vs);
    }
}

/// Adding a search path adds its words.
pub proof fn lemma_libpath_words_push()
    ensures
        forall|ls: Seq<LibrarySearchPathView>, x: LibrarySearchPathView|
            #[trigger] libpath_words(ls.push(x)) == libpath_words(ls) + libpath_item(x),
{
    assert forall|ls: Seq<LibrarySearchPathView>, x: LibrarySearchPathView|
        #[trigger] libpath_words(ls.push(x)) == libpath_words(ls) + libpath_item(x) by {
        assert(ls.push(x).drop_last() =~= ls);
    }
}

/// Adding a linked library adds its words.
pub proof fn lemma_link_words_push()
    ensures
        forall|ls: Seq<LinkLibView>, x: LinkLibView|
            #[trigger] link_words(ls.push(x)) == link_words(ls) + link_item(x),
{
    assert forall|ls: Seq<LinkLibView>, x: LinkLibView|
        #[trigger] link_words(ls.push(x)) == link_words(ls) + link_item(x) by {
        assert(ls.push(x).drop_last() =~= ls);
    }
}

/// The arguments that stand for an `Info`, in the order `to_args` writes
/// them: the options, the inputs, and last the unknown arguments, so that a
/// `--` or a key without its value among them stays at the end.
pub open spec fn spec_to_args(i: InfoView) -> Seq<Seq<char>> {
    option_args(i) + i.inputs + i.unknown
}

/// The flags of an `Info` as `to_args` writes them.
pub open spec fn written_flags(i: InfoView) -> Seq<Seq<char>> {
    flag_word(i.help, "--help"@)
        + flag_word(i.version, "--version"@)
        + flag_word(i.verbose, "--verbose"@)
        + flag_word(i.test, "--test"@)
        + flag_word(i.opt_level, "-O"@)
        + flag_word(i.debug_info, "-g"@)
}

/// The flags, then the options about the crate and its output, as
/// `to_args` writes them.
pub open spec fn written_crate_options(i: InfoView) -> Seq<Seq<char>> {
    written_flags(i)
        + value_word("--crate-name="@, i.crate_name)
        + value_word("--edition="@, i.edition)
        + value_word("--out-dir="@, i.out_dir)
        + spaced_words("-o"@, i.out)
        + value_word("--target="@, i.target)
        + value_word("--sysroot="@, i.sysroot)
}

/// The above, then the options about diagnostics and printing, as
/// `to_args` writes them.
pub open spec fn written_values(i: InfoView) -> Seq<Seq<char>> {
    written_crate_options(i)
        + value_word("--error-format="@, i.error_format)
        + value_word("--color="@, i.color)
        + value_word("--json="@, i.json)
        + value_word("--cap-lints="@, i.cap_lints)
        + value_word("--explain="@, i.explain)
        + value_word("--print="@, i.print)
        + value_word("--unpretty="@, i.unpretty)
}

/// The above, then the `=`-joined collections, as `to_args` writes them.
pub open spec fn written_collections(i: InfoView) -> Seq<Seq<char>> {
    written_values(i)
        + prefixed("--cfg="@, i.configs)
        + prefixed("--check-cfg="@, i.confchecks)
        + prefixed("--crate-type="@, i.crate_types)
        + emit_words(i.emits)
        + i.externs.map_values(|x: ExternView| extern_word(x))
        + i.remap_path_prefixes.map_values(|r: (Seq<char>, Seq<char>)| remap_word(r))
        + libpath_words(i.libpaths)
        + link_words(i.links)
}

/// The recognised options of an `Info` as arguments: everything `to_args`
/// writes before the unknown arguments and the inputs.
pub open spec fn option_args(i: InfoView) -> Seq<Seq<char>> {
    written_collections(i)
        + attached_words("-W"@, i.warns)
        + attached_words("-A"@, i.allows)
        + attached_words("-D"@, i.denies)
        + attached_words("-F"@, i.forbids)
        + attached_words("-C"@, i.codegen_opts)
        + attached_words("-Z"@, i.z_opts)
}

proof fn lemma_words_push(v: Seq<String>, s: String)
    ensures
        words(v.push(s)) == words(v) + seq![s@],
{
    assert(words(v.push(s)) =~= words(v) + seq![s@]);
}

/// Adds `flag` when `on`.
fn push_flag(out: &mut Vec<String>, on: bool, flag: &str)
    ensures
        words(final(out)@) == words(old(out)@) + flag_word(on, flag@),
{
    if on {
        let w = owned(flag);
        proof {
            lemma_words_push(out@, w);
        }
        out.push(w);
    } else {
        assert(words(out@) =~= words(out@) + flag_word(on, flag@));
    }
}

/// Adds `prefix` followed by the value, when there is one.
fn push_value(out: &mut Vec<String>, prefix: &str, v: &Option<String>)
    ensures
        words(final(out)@) == words(old(out)@) + value_word(prefix@, v.deep_view()),
{
    match v {
        Some(x) => {
            let w = concat(prefix, x.as_str());
            proof {
                lemma_words_push(out@, w);
            }
            out.push(w);
        },
        None => {
            assert(words(out@) =~= words(out@) + value_word(prefix@, v.deep_view()));
        },
    }
}

/// Adds `key` and then the value as a word of its own, when there is one.
fn push_spaced(out: &mut Vec<String>, key: &str, v: &Option<String>)
    ensures
        words(final(out)@) == words(old(out)@) + spaced_words(key@, v.deep_view()),
{
    match v {
        Some(x) => {
            let k = owned(key);
            let w = x.clone();
            proof {
                lemma_words_push(out@, k);
            }
            out.push(k);
            proof {
                lemma_words_push(out@, w);
            }
            out.push(w);
            assert(words(out@) =~= words(old(out)@) + spaced_words(key@, v.deep_view()));
        },
        None => {
            assert(words(out@) =~= words(out@) + spaced_words(key@, v.deep_view()));
        },
    }
}

/// Adds `prefix` followed by each value.
fn push_prefixed(out: &mut Vec<String>, prefix: &str, vals: &Vec<String>)
    ensures
        words(final(out)@) == words(old(out)@) + prefixed(prefix@, words(vals@)),
{
    let ghost start = words(out@);
    let mut i: usize = 0;
    while i < vals.len()
        invariant
            i <= vals.len(),
            words(out@) == start + prefixed(prefix@, words(vals@.take(i as int))),
        decreases vals.len() - i,
    {
        let w = concat(prefix, vals[i].as_str());
        proof {
            lemma_words_push(out@, w);
            assert(prefixed(prefix@, words(vals@.take(i + 1))) =~= prefixed(
                prefix@,
                words(vals@.take(i as int)),
            ).push(w@));
        }
        out.push(w);
        i = i + 1;
    }
    assert(vals@.take(vals.len() as int) =~= vals@);
}

/// Adds each value after the one-letter `key`, in the same word when it can
/// be attached, as a word of its own otherwise.
fn push_attached(out: &mut Vec<String>, key: &str, vals: &Vec<String>)
    ensures
        words(final(out)@) == words(old(out)@) + attached_words(key@, words(vals@)),
{
    let ghost start = words(out@);
    let ghost ws = words(vals@);
    proof {
        lemma_attached_words_push(key@);
    }
    let mut i: usize = 0;
    while i < vals.len()
        invariant
            i <= vals.len(),
            ws == words(vals@),
            forall|vs: Seq<Seq<char>>, x: Seq<char>|
                #[trigger] attached_words(key@, vs.push(x)) == attached_words(key@, vs) + attached_item(key@, x),
            words(out@) == start + attached_words(key@, ws.take(i as int)),
        decreases vals.len() - i,
    {
        let v = vals[i].as_str();
        proof {
            assert(ws.take(i + 1) =~= ws.take(i as int).push(v@));
        }
        let ghost before = words(out@);
        if v.unicode_len() > 0 && !begins_with(v, '=') {
            let w = concat(key, v);
            proof {
                lemma_words_push(out@, w);
            }
            out.push(w);
        } else {
            let k = owned(key);
            proof {
                lemma_words_push(out@, k);
            }
            out.push(k);
            let w = owned(v);
            proof {
                lemma_words_push(out@, w);
            }
            out.push(w);
        }
        assert(words(out@) =~= before + attached_item(key@, v@));
        i = i + 1;
    }
    assert(ws.take(vals.len() as int) =~= ws);
}

/// Adds a copy of each word.
fn push_all(out: &mut Vec<String>, vals: &Vec<String>)
    ensures
        words(final(out)@) == words(old(out)@) + words(vals@),
{
    let ghost start = words(out@);
    let mut i: usize = 0;
    while i < vals.len()
        invariant
            i <= vals.len(),
            words(out@) == start + words(vals@.take(i as int)),
        decreases vals.len() - i,
    {
        let w = vals[i].clone();
        proof {
            lemma_words_push(out@, w);
            assert(words(vals@.take(i + 1)) =~= words(vals@.take(i as int)).push(w@));
        }
        out.push(w);
        i = i + 1;
    }
    assert(vals@.take(vals.len() as int) =~= vals@);
}

/// The text of one emission.
fn emit_to_text(e: &Emit) -> (r: String)
    ensures
        r@ == emit_text(e@),
{
    match &e.path {
        Some(p) => {
            proof {
                reveal_strlit("=");
            }
            let mut s = concat(e.kind.as_str(), "=");
            s.append(p.as_str());
            s
        },
        None => e.kind.clone(),
    }
}

/// Adds the single `--emit=` argument, when there are emissions.
fn push_emits(out: &mut Vec<String>, emits: &Vec<Emit>)
    ensures
        words(final(out)@) == words(old(out)@) + emit_words(emits@.map_values(|e: Emit| e@)),
{
    let ghost models = emits@.map_values(|e: Emit| e@);
    if emits.len() == 0 {
        assert(words(out@) =~= words(out@) + emit_words(models));
        return;
    }
    let mut texts: Vec<String> = Vec::new();
    let mut i: usize = 0;
    while i < emits.len()
        invariant
            i <= emits.len(),
            models == emits@.map_values(|e: Emit| e@),
            words(texts@) == models.take(i as int).map_values(|e: EmitView| emit_text(e)),
        decreases emits.len() - i,
    {
        let t = emit_to_text(&emits[i]);
        proof {
            lemma_words_push(texts@, t);
            assert(models.take(i + 1).map_values(|e: EmitView| emit_text(e)) =~= models.take(
                i as int,
            ).map_values(|e: EmitView| emit_text(e)).push(t@));
        }
        texts.push(t);
        i = i + 1;
    }
    assert(models.take(emits.len() as int) =~= models);
    proof {
        reveal_strlit(",");
    }
    let joined = join_commas(&texts);
    let w = concat("--emit=", joined.as_str());
    proof {
        lemma_words_push(out@, w);
    }
    out.push(w);
}

/// The argument that stands for one extern.
fn extern_to_word(x: &Extern) -> (r: String)
    ensures
        r@ == extern_word(x@),
{
    let mut s = concat("--extern=", x.name.as_str());
    match &x.path {
        Some(p) => {
            proof {
                reveal_strlit("=");
            }
            s.append("=");
            s.append(p.as_str());
        },
        None => {},
    }
    s
}

/// The argument that stands for one path remapping.
fn remap_to_word(r: &(String, String)) -> (w: String)
    ensures
        w@ == remap_word(r@),
{
    proof {
        reveal_strlit("=");
    }
    let mut s = concat("--remap-path-prefix=", r.0.as_str());
    s.append("=");
    s.append(r.1.as_str());
    s
}

/// The argument that stands for one library search path.
fn libpath_to_word(l: &LibrarySearchPath) -> (w: String)
    ensures
        w@ == libpath_word(l@),
{
    let kind = match l.kind {
        LibrarySearchPathKind::All => "",
        LibrarySearchPathKind::Dep => "dependency=",
        LibrarySearchPathKind::Crate => "crate=",
        LibrarySearchPathKind::Native => "native=",
        LibrarySearchPathKind::Framework => "framework=",
    };
    proof {
        reveal_strlit("");
    }
    let mut s = concat("-L", kind);
    s.append(l.path.as_str());
    s
}

/// The argument that stands for one linked library.
fn link_to_word(l: &LinkLib) -> (w: String)
    ensures
        w@ == link_word(l@),
{
    proof {
        reveal_strlit(":");
        reveal_strlit("=");
        reveal_strlit(",");
    }
    let mut s = owned("-l");
    match &l.kind {
        Some(k) => {
            let k_str = match k {
                LinkLibKind::Dylib => "dylib",
                LinkLibKind::Static => "static",
                LinkLibKind::Framework => "framework",
            };
            s.append(k_str);
            if l.modifiers.len() > 0 {
                s.append(":");
                let mods = join_commas(&l.modifiers);
                s.append(mods.as_str());
            }
            s.append("=");
        },
        None => {},
    }
    s.append(l.name.as_str());
    match &l.rename {
        Some(r) => {
            s.append(":");
            s.append(r.as_str());
        },
        None => {},
    }
    assert(s@ =~= link_word(l@));
    s
}

/// Adds the argument of each extern.
fn push_externs(out: &mut Vec<String>, xs: &Vec<Extern>)
    ensures
        words(final(out)@) == words(old(out)@) + xs@.map_values(|x: Extern| x@).map_values(
            |x: ExternView| extern_word(x),
        ),
{
    let ghost start = words(out@);
    let ghost models = xs@.map_values(|x: Extern| x@);
    let mut i: usize = 0;
    while i < xs.len()
        invariant
            i <= xs.len(),
            models == xs@.map_values(|x: Extern| x@),
            words(out@) == start + models.take(i as int).map_values(|x: ExternView| extern_word(x)),
        decreases xs.len() - i,
    {
        let w = extern_to_word(&xs[i]);
        proof {
            lemma_words_push(out@, w);
            assert(models.take(i + 1).map_values(|x: ExternView| extern_word(x)) =~= models.take(
                i as int,
            ).map_values(|x: ExternView| extern_word(x)).push(w@));
        }
        out.push(w);
        i = i + 1;
    }
    assert(models.take(xs.len() as int) =~= models);
}

/// Adds the argument of each path remapping.
fn push_remaps(out: &mut Vec<String>, rs: &Vec<(String, String)>)
    ensures
        words(final(out)@) == words(old(out)@) + rs@.map_values(|p: (String, String)| p@).map_values(
            |r: (Seq<char>, Seq<char>)| remap_word(r),
        ),
{
    let ghost start = words(out@);
    let ghost models = rs@.map_values(|p: (String, String)| p@);
    let mut i: usize = 0;
    while i < rs.len()
        invariant
            i <= rs.len(),
            models == rs@.map_values(|p: (String, String)| p@),
            words(out@) == start + models.take(i as int).map_values(
                |r: (Seq<char>, Seq<char>)| remap_word(r),
            ),
        decreases rs.len() - i,
    {
        let w = remap_to_word(&rs[i]);
        proof {
            lemma_words_push(out@, w);
            assert(models.take(i + 1).map_values(|r: (Seq<char>, Seq<char>)| remap_word(r))
                =~= models.take(i as int).map_values(|r: (Seq<char>, Seq<char>)| remap_word(r)).push(
                w@,
            ));
        }
        out.push(w);
        i = i + 1;
    }
    assert(models.take(rs.len() as int) =~= models);
}

/// Whether `s` has no `c` in it.
fn lacks(s: &str, c: char) -> (r: bool)
    ensures
        r == !s@.contains(c),
{
    proof {
        lemma_first_index(s@, c);
    }
    find_char(s, c).is_none()
}

/// Adds the words of each library search path.
fn push_libpaths(out: &mut Vec<String>, ls: &Vec<LibrarySearchPath>)
    ensures
        words(final(out)@) == words(old(out)@) + libpath_words(ls@.map_values(|l: LibrarySearchPath| l@)),
{
    let ghost start = words(out@);
    let ghost models = ls@.map_values(|l: LibrarySearchPath| l@);
    proof {
        lemma_libpath_words_push();
    }
    let mut i: usize = 0;
    while i < ls.len()
        invariant
            i <= ls.len(),
            models == ls@.map_values(|l: LibrarySearchPath| l@),
            forall|xs: Seq<LibrarySearchPathView>, x: LibrarySearchPathView|
                #[trigger] libpath_words(xs.push(x)) == libpath_words(xs) + libpath_item(x),
            words(out@) == start + libpath_words(models.take(i as int)),
        decreases ls.len() - i,
    {
        let l = &ls[i];
        proof {
            assert(models.take(i + 1) =~= models.take(i as int).push(l@));
        }
        let ghost before = words(out@);
        let one_word = match l.kind {
            LibrarySearchPathKind::All => l.path.as_str().unicode_len() > 0 && lacks(l.path.as_str(), '='),
            _ => true,
        };
        assert(one_word == libpath_attachable(l@));
        if one_word {
            let w = libpath_to_word(l);
            proof {
                lemma_words_push(out@, w);
            }
            out.push(w);
            assert(words(out@) =~= before + libpath_item(l@));
        } else {
            let k = owned("-L");
            proof {
                lemma_words_push(out@, k);
            }
            out.push(k);
            let w = concat("=", l.path.as_str());
            proof {
                reveal_strlit("=");
                assert("="@ =~= seq!['=']);
                lemma_words_push(out@, w);
            }
            out.push(w);
            assert(w@ == seq!['='] + l@.path);
            assert(words(out@) =~= before + seq![k@, w@]);
        }
        assert(words(out@) =~= before + libpath_item(l@)) by {
            reveal_strlit("=");
            reveal_strlit("-L");
        }
        i = i + 1;
    }
    assert(models.take(ls.len() as int) =~= models);
}

/// The value after a separate `-l` for a library without a kind.
fn link_to_value(l: &LinkLib) -> (w: String)
    ensures
        w@ == link_value(l@),
{
    proof {
        reveal_strlit(":");
        reveal_strlit("=");
        reveal_strlit("");
    }
    let mut s = String::new();
    if l.modifiers.len() > 0 {
        s.append(":");
        let mods = join_commas(&l.modifiers);
        s.append(mods.as_str());
    }
    s.append("=");
    s.append(l.name.as_str());
    match &l.rename {
        Some(r) => {
            s.append(":");
            s.append(r.as_str());
        },
        None => {},
    }
    assert(s@ =~= link_value(l@));
    s
}

/// Adds the words of each linked library.
fn push_links(out: &mut Vec<String>, ls: &Vec<LinkLib>)
    ensures
        words(final(out)@) == words(old(out)@) + link_words(ls@.map_values(|l: LinkLib| l@)),
{
    let ghost start = words(out@);
    let ghost models = ls@.map_values(|l: LinkLib| l@);
    proof {
        lemma_link_words_push();
    }
    let mut i: usize = 0;
    while i < ls.len()
        invariant
            i <= ls.len(),
            models == ls@.map_values(|l: LinkLib| l@),
            forall|xs: Seq<LinkLibView>, x: LinkLibView|
                #[trigger] link_words(xs.push(x)) == link_words(xs) + link_item(x),
            words(out@) == start + link_words(models.take(i as int)),
        decreases ls.len() - i,
    {
        let l = &ls[i];
        proof {
            assert(models.take(i + 1) =~= models.take(i as int).push(l@));
        }
        let ghost before = words(out@);
        let rename_ok = match &l.rename {
            Some(r) => lacks(r.as_str(), '='),
            None => true,
        };
        let one_word = l.kind.is_some() || (l.modifiers.len() == 0 && lacks(l.name.as_str(), '=')
            && rename_ok && (l.name.as_str().unicode_len() > 0 || l.rename.is_some()));
        if one_word {
            let w = link_to_word(l);
            proof {
                lemma_words_push(out@, w);
            }
            out.push(w);
        } else {
            let k = owned("-l");
            proof {
                lemma_words_push(out@, k);
            }
            out.push(k);
            let w = link_to_value(l);
            proof {
                lemma_words_push(out@, w);
            }
            out.push(w);
        }
        assert(words(out@) =~= before + link_item(l@));
        i = i + 1;
    }
    assert(models.take(ls.len() as int) =~= models);
}

impl Info {
    /// Reconstructs the parsed arguments back into a `Vec<String>` suitable
    /// for passing to the actual `rustc`.
    pub fn to_args(&self) -> (r: Vec<String>)
        ensures
            words(r@) == spec_to_args(self@),
    {
        let mut args: Vec<String> = Vec::new();
        assert(words(args@) =~= seq![]);
        push_flag(&mut args, self.help, "--help");
        assert(words(args@) =~= flag_word(self.help, "--help"@));
        push_flag(&mut args, self.version, "--version");
        push_flag(&mut args, self.verbose, "--verbose");
        push_flag(&mut args, self.test, "--test");
        push_flag(&mut args, self.opt_level, "-O");
        push_flag(&mut args, self.debug_info, "-g");

        push_value(&mut args, "--crate-name=", &self.crate_name);
        push_value(&mut args, "--edition=", &self.edition);
        push_value(&mut args, "--out-dir=", &self.out_dir);
        push_spaced(&mut args, "-o", &self.out);
        push_value(&mut args, "--target=", &self.target);
        push_value(&mut args, "--sysroot=", &self.sysroot);
        push_value(&mut args, "--error-format=", &self.error_format);
        push_value(&mut args, "--color=", &self.color);
        push_value(&mut args, "--json=", &self.json);
        push_value(&mut args, "--cap-lints=", &self.cap_lints);
        push_value(&mut args, "--explain=", &self.explain);
        push_value(&mut args, "--print=", &self.print);
        push_value(&mut args, "--unpretty=", &self.unpretty);

        push_prefixed(&mut args, "--cfg=", &self.configs);
        push_prefixed(&mut args, "--check-cfg=", &self.confchecks);
        push_prefixed(&mut args, "--crate-type=", &self.crate_types);

        push_emits(&mut args, &self.emits);
        push_externs(&mut args, &self.externs);
        push_remaps(&mut args, &self.remap_path_prefixes);
        push_libpaths(&mut args, &self.libpaths);
        push_links(&mut args, &self.links);

        push_attached(&mut args, "-W", &self.warns);
        push_attached(&mut args, "-A", &self.allows);
        push_attached(&mut args, "-D", &self.denies);
        push_attached(&mut args, "-F", &self.forbids);
        push_attached(&mut args, "-C", &self.codegen_opts);
        push_attached(&mut args, "-Z", &self.z_opts);

        push_all(&mut args, &self.inputs);
        push_all(&mut args, &self.unknown);
        args
    }
}

} // verus!
