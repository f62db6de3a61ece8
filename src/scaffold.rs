//! Text of the files of a forwarding library crate built from an export list.
use vstd::prelude::*;

verus! {

/// Relies on `String::push_str`: appends the characters of `t`.
#[verifier::external_body]
fn push_text(s: &mut String, t: &str)
    ensures
        final(s)@ == old(s)@ + t@,
{
    s.push_str(t);
}

/// Relies on `String::push`: appends one character.
#[verifier::external_body]
fn push_char(s: &mut String, c: char)
    ensures
        final(s)@ == old(s)@.push(c),
{
    s.push(c);
}

/// The decimal digit for `d`, which is below ten.
pub open spec fn digit_char(d: nat) -> char {
    if d == 0 {
        '0'
    } else if d == 1 {
        '1'
    } else if d == 2 {
        '2'
    } else if d == 3 {
        '3'
    } else if d == 4 {
        '4'
    } else if d == 5 {
        '5'
    } else if d == 6 {
        '6'
    } else if d == 7 {
        '7'
    } else if d == 8 {
        '8'
    } else {
        '9'
    }
}

/// The decimal numeral of `n`, without leading zeros.
pub open spec fn decimal(n: nat) -> Seq<char>
    decreases n,
{
    if n < 10 {
        seq![digit_char(n)]
    } else {
        decimal(n / 10).push(digit_char(n % 10))
    }
}

fn digit(d: u64) -> (c: char)
    requires
        d < 10,
    ensures
        c == digit_char(d as nat),
{
    if d == 0 {
        '0'
    } else if d == 1 {
        '1'
    } else if d == 2 {
        '2'
    } else if d == 3 {
        '3'
    } else if d == 4 {
        '4'
    } else if d == 5 {
        '5'
    } else if d == 6 {
        '6'
    } else if d == 7 {
        '7'
    } else if d == 8 {
        '8'
    } else {
        '9'
    }
}

/// Appends the decimal numeral of `n`.
fn push_decimal(s: &mut String, n: u64)
    ensures
        final(s)@ == old(s)@ + decimal(n as nat),
    decreases n,
{
    if n >= 10 {
        push_decimal(s, n / 10);
    }
    push_char(s, digit(n % 10));
    assert(s@ =~= old(s)@ + decimal(n as nat));
}

/// The text of each string of `v`.
pub open spec fn views(v: Seq<&str>) -> Seq<Seq<char>> {
    v.map_values(|s: &str| s@)
}

/// The text of each string of `v`.
pub open spec fn string_views(v: Seq<String>) -> Seq<Seq<char>> {
    v.map_values(|s: String| s@)
}

/// The definition-file line that binds export `e` to ordinal `ordinal` and
/// forwards it to the same name in the library `forward_to`.
pub open spec fn def_entry(e: Seq<char>, forward_to: Seq<char>, ordinal: nat) -> Seq<char> {
    "    "@ + e + " = "@ + forward_to + "_."@ + e + " @"@ + decimal(ordinal) + "\n"@
}

/// The definition-file lines of the first `k` exports, with ordinals from 1.
pub open spec fn def_entries(exports: Seq<Seq<char>>, forward_to: Seq<char>, k: int) -> Seq<char>
    decreases k,
{
    if k <= 0 {
        seq![]
    } else {
        def_entries(exports, forward_to, k - 1) + def_entry(exports[k - 1], forward_to, k as nat)
    }
}

/// The whole definition file of the crate `crate_name`.
pub open spec fn def_text(crate_name: Seq<char>, forward_to: Seq<char>, exports: Seq<Seq<char>>) -> Seq<char> {
    "LIBRARY "@ + crate_name + "\nEXPORTS\n"@ + def_entries(exports, forward_to, exports.len() as int)
}

/// The module-definition file: the library name, then one line per export in
/// list order, numbered from 1, each forwarding to `<forward_to>_.<name>`.
pub fn def_file_text(crate_name: &str, forward_to: &str, exports: &Vec<String>) -> (r: String)
    ensures
        r@ == def_text(crate_name@, forward_to@, string_views(exports@)),
{
    let ghost ex = string_views(exports@);
    let mut out = String::new();
    push_text(&mut out, "LIBRARY ");
    push_text(&mut out, crate_name);
    push_text(&mut out, "\nEXPORTS\n");
    let ghost head = out@;
    let mut i: usize = 0;
    while i < exports.len()
        invariant
            i <= exports.len(),
            ex == string_views(exports@),
            head == "LIBRARY "@ + crate_name@ + "\nEXPORTS\n"@,
            out@ == head + def_entries(ex, forward_to@, i as int),
        decreases exports.len() - i,
    {
        let e = exports[i].as_str();
        let ghost before = out@;
        push_text(&mut out, "    ");
        push_text(&mut out, e);
        push_text(&mut out, " = ");
        push_text(&mut out, forward_to);
        push_text(&mut out, "_.");
        push_text(&mut out, e);
        push_text(&mut out, " @");
        push_decimal(&mut out, i as u64 + 1);
        push_text(&mut out, "\n");
        assert(ex[i as int] == e@);
        assert(out@ =~= before + def_entry(ex[i as int], forward_to@, (i + 1) as nat));
        i = i + 1;
    }
    out
}

/// The stub source line pair for export `e`: an unmangled empty function.
pub open spec fn stub_entry(e: Seq<char>) -> Seq<char> {
    "#[no_mangle]\n"@ + "fn "@ + e + "() {}\n"@
}

/// The stub functions of the first `k` exports.
pub open spec fn stub_entries(exports: Seq<Seq<char>>, k: int) -> Seq<char>
    decreases k,
{
    if k <= 0 {
        seq![]
    } else {
        stub_entries(exports, k - 1) + stub_entry(exports[k - 1])
    }
}

/// The stub source file: the fixed `preamble`, then one empty function per
/// export, in list order.
pub fn stub_source_text(preamble: &str, exports: &Vec<String>) -> (r: String)
    ensures
        r@ == preamble@ + stub_entries(string_views(exports@), exports@.len() as int),
{
    let ghost ex = string_views(exports@);
    let mut out = String::new();
    push_text(&mut out, preamble);
    let mut i: usize = 0;
    while i < exports.len()
        invariant
            i <= exports.len(),
            ex == string_views(exports@),
            out@ == preamble@ + stub_entries(ex, i as int),
        decreases exports.len() - i,
    {
        let e = exports[i].as_str();
        let ghost before = out@;
        push_text(&mut out, "#[no_mangle]\n");
        push_text(&mut out, "fn ");
        push_text(&mut out, e);
        push_text(&mut out, "() {}\n");
        assert(ex[i as int] == e@);
        assert(out@ =~= before + stub_entry(ex[i as int]));
        i = i + 1;
    }
    out
}

/// The dependency lines of the first `k` entries, one per line.
pub open spec fn lines(items: Seq<Seq<char>>, k: int) -> Seq<char>
    decreases k,
{
    if k <= 0 {
        seq![]
    } else {
        lines(items, k - 1) + items[k - 1] + "\n"@
    }
}

/// The package manifest of the crate `crate_name`.
pub open spec fn manifest(crate_name: Seq<char>, dependencies: Seq<Seq<char>>) -> Seq<char> {
    "[package]\nname = \""@ + crate_name + "\"\nversion = \"0.1.0\"\nedition = \"2021\"\n\n"@
        + "[lib]\ncrate-type = [\"cdylib\"]\n\n[dependencies]\n"@ + lines(dependencies, dependencies.len() as int)
}

/// The package manifest: a dynamic library named `crate_name` with each
/// dependency line, if any, under `[dependencies]`.
pub fn manifest_text(crate_name: &str, dependencies: &Option<Vec<&str>>) -> (r: String)
    ensures
        r@ == manifest(
            crate_name@,
            match dependencies {
                Some(d) => views(d@),
                None => seq![],
            },
        ),
{
    let mut out = String::new();
    push_text(&mut out, "[package]\nname = \"");
    push_text(&mut out, crate_name);
    push_text(&mut out, "\"\nversion = \"0.1.0\"\nedition = \"2021\"\n\n");
    push_text(&mut out, "[lib]\ncrate-type = [\"cdylib\"]\n\n[dependencies]\n");
    let ghost head = out@;
    match dependencies {
        Some(deps) => {
            let ghost ds = views(deps@);
            let mut i: usize = 0;
            while i < deps.len()
                invariant
                    i <= deps.len(),
                    ds == views(deps@),
                    out@ == head + lines(ds, i as int),
                decreases deps.len() - i,
            {
                let ghost before = out@;
                push_text(&mut out, deps[i]);
                push_text(&mut out, "\n");
                assert(ds[i as int] == deps[i as int]@);
                assert(out@ =~= before + ds[i as int] + "\n"@);
                i = i + 1;
            }
        },
        None => {
            assert(lines(seq![], 0) =~= Seq::<char>::empty());
            assert(out@ =~= head + lines(seq![], 0));
        },
    }
    out
}

/// The build configuration: the Windows MSVC target, and, given the path of
/// the definition file, the linker flag that applies it.
pub open spec fn build_config(def_path: Option<Seq<char>>) -> Seq<char> {
    "[build]\ntarget = \"x86_64-pc-windows-msvc\"\n"@ + match def_path {
        Some(p) => "rustflags = [\"-C\", \"link-args=/DEF:"@ + p + "\"]\n"@,
        None => seq![],
    }
}

/// The build configuration file text.
pub fn config_text(def_path: Option<&str>) -> (r: String)
    ensures
        r@ == build_config(
            match def_path {
                Some(p) => Some(p@),
                None => None,
            },
        ),
{
    let mut out = String::new();
    push_text(&mut out, "[build]\ntarget = \"x86_64-pc-windows-msvc\"\n");
    match def_path {
        Some(p) => {
            push_text(&mut out, "rustflags = [\"-C\", \"link-args=/DEF:");
            push_text(&mut out, p);
            push_text(&mut out, "\"]\n");
            assert(out@ =~= build_config(Some(p@)));
        },
        None => {
            assert(out@ =~= build_config(None));
        },
    }
    out
}

} // verus!
