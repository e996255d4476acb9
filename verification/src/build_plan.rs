//! The decisions of the LDC2 build pipeline, taken on plain values: which
//! `--mtriple`, `-mcpu` and `-mattr` to hand LDC2, the argument list of each
//! D compilation, where to look for `ldc2` and for its runtime libraries, and
//! what to link. The caller reads the environment and the file system and
//! hands the results in; nothing here touches either.

use vstd::prelude::*;

verus! {

// ─── Text ────────────────────────────────────────────────────────────────

/// What follows `prefix` in `s`, when `s` starts with `prefix`.
pub open spec fn after_prefix(s: Seq<char>, prefix: Seq<char>) -> Option<Seq<char>> {
    if prefix.len() <= s.len() && s.subrange(0, prefix.len() as int) == prefix {
        Some(s.subrange(prefix.len() as int, s.len() as int))
    } else {
        None
    }
}

/// An optional string slice, seen as an optional text.
pub open spec fn str_opt_view(o: Option<&str>) -> Option<Seq<char>> {
    match o {
        Some(s) => Some(s@),
        None => None,
    }
}

/// An optional owned string, seen as an optional text.
pub open spec fn string_opt_view(o: Option<String>) -> Option<Seq<char>> {
    match o {
        Some(s) => Some(s@),
        None => None,
    }
}

/// A list of strings, seen as a list of texts.
pub open spec fn strings_view(v: Seq<String>) -> Seq<Seq<char>> {
    v.map_values(|s: String| s@)
}

/// The fields of `s` between occurrences of `sep`, as `str::split` yields
/// them: an empty text has one empty field, and a separator at either end
/// gives an empty field there.
pub open spec fn split_on(s: Seq<char>, sep: char) -> Seq<Seq<char>>
    decreases s.len(),
{
    if s.len() == 0 {
        seq![Seq::<char>::empty()]
    } else {
        let fields = split_on(s.drop_last(), sep);
        if s.last() == sep {
            fields.push(Seq::<char>::empty())
        } else {
            fields.update(fields.len() - 1, fields.last().push(s.last()))
        }
    }
}

/// `parts` with `sep` between each two neighbours.
pub open spec fn join_with(parts: Seq<Seq<char>>, sep: Seq<char>) -> Seq<char>
    decreases parts.len(),
{
    if parts.len() == 0 {
        Seq::<char>::empty()
    } else if parts.len() == 1 {
        parts[0]
    } else {
        join_with(parts.drop_last(), sep) + sep + parts.last()
    }
}

proof fn lemma_split_has_a_field(s: Seq<char>, sep: char)
    ensures
        split_on(s, sep).len() >= 1,
    decreases s.len(),
{
    if s.len() > 0 {
        lemma_split_has_a_field(s.drop_last(), sep);
    }
}

fn str_eq(a: &str, b: &str) -> (same: bool)
    ensures
        same == (a@ == b@),
{
    let n = a.unicode_len();
    let m = b.unicode_len();
    if n != m {
        return false;
    }
    let mut i: usize = 0;
    while i < n
        invariant
            n == a@.len(),
            m == b@.len(),
            n == m,
            i <= n,
            forall|k: int| 0 <= k < i ==> a@[k] == b@[k],
        decreases n - i,
    {
        if a.get_char(i) != b.get_char(i) {
            return false;
        }
        i += 1;
    }
    proof {
        assert(a@ =~= b@);
    }
    true
}

fn strip_prefix<'a>(s: &'a str, prefix: &str) -> (rest: Option<&'a str>)
    ensures
        str_opt_view(rest) == after_prefix(s@, prefix@),
{
    let n = s.unicode_len();
    let p = prefix.unicode_len();
    if p > n {
        return None;
    }
    let mut i: usize = 0;
    while i < p
        invariant
            n == s@.len(),
            p == prefix@.len(),
            p <= n,
            i <= p,
            forall|k: int| 0 <= k < i ==> s@[k] == prefix@[k],
        decreases p - i,
    {
        if s.get_char(i) != prefix.get_char(i) {
            proof {
                assert(s@.subrange(0, p as int)[i as int] != prefix@[i as int]);
            }
            return None;
        }
        i += 1;
    }
    proof {
        assert(s@.subrange(0, p as int) =~= prefix@);
    }
    Some(s.substring_char(p, n))
}

fn split_fields(s: &str, sep: char) -> (fields: Vec<String>)
    ensures
        strings_view(fields@) == split_on(s@, sep),
{
    let n = s.unicode_len();
    let mut done: Vec<String> = Vec::new();
    let mut start: usize = 0;
    let mut i: usize = 0;
    proof {
        assert(s@.take(0) =~= Seq::<char>::empty());
        assert(strings_view(done@).push(s@.subrange(0, 0)) =~= split_on(s@.take(0), sep));
    }
    while i < n
        invariant
            n == s@.len(),
            start <= i <= n,
            strings_view(done@).push(s@.subrange(start as int, i as int)) == split_on(
                s@.take(i as int),
                sep,
            ),
        decreases n - i,
    {
        let ghost before = strings_view(done@);
        let ghost cur = s@.subrange(start as int, i as int);
        proof {
            assert(s@.take(i + 1).drop_last() =~= s@.take(i as int));
        }
        let c = s.get_char(i);
        if c == sep {
            let field = String::from_str(s.substring_char(start, i));
            done.push(field);
            start = i + 1;
            proof {
                assert(strings_view(done@) =~= before.push(cur));
                assert(s@.subrange(start as int, i + 1) =~= Seq::<char>::empty());
            }
        } else {
            proof {
                assert(s@.subrange(start as int, i + 1) =~= cur.push(c));
                assert(before.push(cur).update(before.len() as int, cur.push(c)) =~= before.push(
                    cur.push(c),
                ));
            }
        }
        i += 1;
    }
    let last = String::from_str(s.substring_char(start, n));
    let ghost before = strings_view(done@);
    done.push(last);
    proof {
        assert(s@.take(n as int) =~= s@);
        assert(strings_view(done@) =~= before.push(s@.subrange(start as int, n as int)));
    }
    done
}

// ─── Target triple ───────────────────────────────────────────────────────

/// The LDC2 `--mtriple` for a Rust target triple (cargo's `TARGET`), from
/// the table of targets that LDC2 ships a cross runtime for.
pub open spec fn spec_ldc2_triple(target: Seq<char>) -> Option<Seq<char>> {
    if target == "x86_64-unknown-linux-gnu"@ {
        Some("x86_64-linux-gnu"@)
    } else if target == "x86_64-unknown-linux-musl"@ {
        Some("x86_64-linux-musl"@)
    } else if target == "x86_64-apple-darwin"@ {
        Some("x86_64-apple-macos10.12"@)
    } else if target == "x86_64-pc-windows-msvc"@ {
        Some("x86_64-windows-msvc"@)
    } else if target == "i686-unknown-linux-gnu"@ {
        Some("i686-linux-gnu"@)
    } else if target == "i686-unknown-linux-musl"@ {
        Some("i686-linux-musl"@)
    } else if target == "i686-pc-windows-msvc"@ {
        Some("i686-windows-msvc"@)
    } else if target == "arm-unknown-linux-gnueabihf"@ {
        Some("armv6-linux-gnueabihf"@)
    } else if target == "armv7-linux-androideabi"@ {
        Some("armv7a-unknown-linux-androideabi"@)
    } else if target == "aarch64-linux-android"@ {
        Some("aarch64-linux-android"@)
    } else if target == "aarch64-unknown-linux-gnu"@ {
        Some("aarch64-linux-gnu"@)
    } else if target == "aarch64-apple-darwin"@ {
        Some("arm64-apple-macos11.0"@)
    } else if target == "aarch64-apple-ios"@ {
        Some("arm64-apple-ios12.0"@)
    } else if target == "wasm32-unknown-unknown"@ {
        Some("wasm32-unknown-unknown-webassembly"@)
    } else {
        None
    }
}

/// Looks `target` up in the Rust-to-LDC2 triple table.
pub fn ldc2_triple_for(target: &str) -> (triple: Option<String>)
    ensures
        string_opt_view(triple) == spec_ldc2_triple(target@),
{
    if str_eq(target, "x86_64-unknown-linux-gnu") {
        Some(String::from_str("x86_64-linux-gnu"))
    } else if str_eq(target, "x86_64-unknown-linux-musl") {
        Some(String::from_str("x86_64-linux-musl"))
    } else if str_eq(target, "x86_64-apple-darwin") {
        Some(String::from_str("x86_64-apple-macos10.12"))
    } else if str_eq(target, "x86_64-pc-windows-msvc") {
        Some(String::from_str("x86_64-windows-msvc"))
    } else if str_eq(target, "i686-unknown-linux-gnu") {
        Some(String::from_str("i686-linux-gnu"))
    } else if str_eq(target, "i686-unknown-linux-musl") {
        Some(String::from_str("i686-linux-musl"))
    } else if str_eq(target, "i686-pc-windows-msvc") {
        Some(String::from_str("i686-windows-msvc"))
    } else if str_eq(target, "arm-unknown-linux-gnueabihf") {
        Some(String::from_str("armv6-linux-gnueabihf"))
    } else if str_eq(target, "armv7-linux-androideabi") {
        Some(String::from_str("armv7a-unknown-linux-androideabi"))
    } else if str_eq(target, "aarch64-linux-android") {
        Some(String::from_str("aarch64-linux-android"))
    } else if str_eq(target, "aarch64-unknown-linux-gnu") {
        Some(String::from_str("aarch64-linux-gnu"))
    } else if str_eq(target, "aarch64-apple-darwin") {
        Some(String::from_str("arm64-apple-macos11.0"))
    } else if str_eq(target, "aarch64-apple-ios") {
        Some(String::from_str("arm64-apple-ios12.0"))
    } else if str_eq(target, "wasm32-unknown-unknown") {
        Some(String::from_str("wasm32-unknown-unknown-webassembly"))
    } else {
        None
    }
}

/// No LDC2 triple is known for this Rust target, and none was given.
pub struct UnknownTarget {
    pub target: String,
}

/// Chooses LDC2's `--mtriple`: the given override wins; a native build
/// (target equal to host) passes none; a cross build takes the table entry.
/// Without an override, a cross build to a target missing from the table is
/// an error.
pub fn select_mtriple(target: &str, host: &str, mtriple_override: Option<&str>) -> (chosen: Result<
    Option<String>,
    UnknownTarget,
>)
    ensures
        mtriple_override matches Some(o) ==> chosen matches Ok(Some(t)) && t@ == o@,
        mtriple_override is None && target@ == host@ ==> chosen matches Ok(None),
        mtriple_override is None && target@ != host@ && spec_ldc2_triple(target@) is Some ==> (
        chosen matches Ok(Some(t)) && Some(t@) == spec_ldc2_triple(target@)),
        chosen is Err <==> (mtriple_override is None && target@ != host@ && spec_ldc2_triple(
            target@,
        ) is None),
        chosen matches Err(e) ==> e.target@ == target@,
{
    match mtriple_override {
        Some(o) => Ok(Some(String::from_str(o))),
        None => {
            if str_eq(target, host) {
                Ok(None)
            } else {
                match ldc2_triple_for(target) {
                    Some(t) => Ok(Some(t)),
                    None => Err(UnknownTarget { target: String::from_str(target) }),
                }
            }
        },
    }
}

// ─── CPU and features ────────────────────────────────────────────────────

/// The CPU named by the first `-Ctarget-cpu=X`, or `-C` followed by
/// `target-cpu=X`, among `fields` from index `i` on. A `-C` always takes the
/// field after it with it, whether or not that field names a CPU.
pub open spec fn cpu_scan(fields: Seq<Seq<char>>, i: int) -> Option<Seq<char>>
    decreases fields.len() - i,
{
    if i < 0 || i >= fields.len() {
        None
    } else if after_prefix(fields[i], "-Ctarget-cpu="@) is Some {
        after_prefix(fields[i], "-Ctarget-cpu="@)
    } else if fields[i] == "-C"@ {
        if i + 1 < fields.len() {
            if after_prefix(fields[i + 1], "target-cpu="@) is Some {
                after_prefix(fields[i + 1], "target-cpu="@)
            } else {
                cpu_scan(fields, i + 2)
            }
        } else {
            None
        }
    } else {
        cpu_scan(fields, i + 1)
    }
}

/// The CPU that rustc's `-C target-cpu` pins in cargo's
/// `CARGO_ENCODED_RUSTFLAGS` (fields separated by `\x1f`).
pub open spec fn spec_target_cpu(raw: Seq<char>) -> Option<Seq<char>> {
    cpu_scan(split_on(raw, '\x1f'), 0)
}

/// Reads the `-C target-cpu` that rustc pins out of the encoded rustflags;
/// `None` when none is pinned.
pub fn target_cpu_from_encoded_rustflags(raw: &str) -> (cpu: Option<String>)
    ensures
        string_opt_view(cpu) == spec_target_cpu(raw@),
{
    let fields = split_fields(raw, '\x1f');
    let ghost all = split_on(raw@, '\x1f');
    let mut i: usize = 0;
    while i < fields.len()
        invariant
            strings_view(fields@) == all,
            all == split_on(raw@, '\x1f'),
            i <= fields.len(),
            cpu_scan(all, i as int) == cpu_scan(all, 0),
        decreases fields.len() - i,
    {
        assert(all[i as int] == fields@[i as int]@);
        let field = fields[i].as_str();
        match strip_prefix(field, "-Ctarget-cpu=") {
            Some(cpu) => {
                return Some(String::from_str(cpu));
            },
            None => {},
        }
        if str_eq(field, "-C") {
            if i + 1 < fields.len() {
                assert(all[i + 1] == fields@[i + 1]@);
                match strip_prefix(fields[i + 1].as_str(), "target-cpu=") {
                    Some(cpu) => {
                        return Some(String::from_str(cpu));
                    },
                    None => {},
                }
                i += 2;
            } else {
                return None;
            }
        } else {
            i += 1;
        }
    }
    None
}

/// The non-empty fields of a comma-separated feature list, each marked
/// enabled with `+` and joined by `,`, as LLVM's `-mattr` wants them; `None`
/// when no field is left.
pub open spec fn spec_mattr(features: Seq<char>) -> Option<Seq<char>> {
    let kept = split_on(features, ',').filter(|f: Seq<char>| f.len() > 0);
    if kept.len() == 0 {
        None
    } else {
        Some(join_with(kept.map_values(|f: Seq<char>| seq!['+'] + f), seq![',']))
    }
}

/// Turns cargo's `CARGO_CFG_TARGET_FEATURE` into LDC2's `-mattr` value.
pub fn mattr_from_target_features(features: &str) -> (mattr: Option<String>)
    ensures
        string_opt_view(mattr) == spec_mattr(features@),
{
    let fields = split_fields(features, ',');
    let ghost all = split_on(features@, ',');
    let ghost keep = |f: Seq<char>| f.len() > 0;
    let ghost mark = |f: Seq<char>| seq!['+'] + f;
    let mut joined = String::new();
    let mut any = false;
    let mut i: usize = 0;
    proof {
        reveal_strlit(",");
        reveal_strlit("+");
        assert(all.take(0) =~= Seq::<Seq<char>>::empty());
    }
    while i < fields.len()
        invariant
            strings_view(fields@) == all,
            all == split_on(features@, ','),
            i <= fields.len(),
            ","@ == seq![','],
            "+"@ == seq!['+'],
            keep == (|f: Seq<char>| f.len() > 0),
            mark == (|f: Seq<char>| seq!['+'] + f),
            any == (all.take(i as int).filter(keep).len() > 0),
            joined@ == join_with(all.take(i as int).filter(keep).map_values(mark), seq![',']),
        decreases fields.len() - i,
    {
        let ghost kept = all.take(i as int).filter(keep);
        let ghost f = all[i as int];
        assert(f == fields@[i as int]@);
        assert(all.take(i + 1).drop_last() =~= all.take(i as int));
        assert(all.take(i + 1).last() == f);
        assert(all.take(i + 1).filter(keep) == if keep(f) {
            kept.push(f)
        } else {
            kept
        }) by {
            let t = all.take(i + 1);
            assert(t.len() > 0);
            assert(t.drop_last() =~= all.take(i as int));
            assert(t.last() == f);
            reveal_with_fuel(Seq::filter, 2);
        }
        let field = fields[i].as_str();
        if field.unicode_len() > 0 {
            if any {
                joined.append(",");
            }
            joined.append("+");
            joined.append(field);
            any = true;
            proof {
                assert(all.take(i + 1).filter(keep) == kept.push(f));
                assert(kept.push(f).map_values(mark) =~= kept.map_values(mark).push(mark(f)));
                assert(kept.map_values(mark).push(mark(f)).drop_last() =~= kept.map_values(mark));
            }
        } else {
            proof {
                assert(all.take(i + 1).filter(keep) == kept);
            }
        }
        i += 1;
    }
    proof {
        assert(all.take(fields.len() as int) =~= all);
    }
    if any {
        Some(joined)
    } else {
        None
    }
}

/// Chooses LDC2's `-mattr`: `$LDC2_MATTR` when set, else the features cargo
/// resolved for the target.
pub fn select_mattr(mattr_override: Option<&str>, target_features: Option<&str>) -> (mattr: Option<
    String,
>)
    ensures
        mattr_override matches Some(o) ==> string_opt_view(mattr) == Some(o@),
        mattr_override is None ==> (target_features matches Some(f) ==> string_opt_view(mattr)
            == spec_mattr(f@)),
        mattr_override is None && target_features is None ==> mattr is None,
{
    match mattr_override {
        Some(o) => Some(String::from_str(o)),
        None => match target_features {
            Some(f) => mattr_from_target_features(f),
            None => None,
        },
    }
}

/// Chooses LDC2's `-mcpu`: `$LDC2_MCPU` when set, else the CPU that rustc
/// pins in the encoded rustflags.
pub fn select_mcpu(mcpu_override: Option<&str>, encoded_rustflags: Option<&str>) -> (mcpu: Option<
    String,
>)
    ensures
        mcpu_override matches Some(o) ==> string_opt_view(mcpu) == Some(o@),
        mcpu_override is None ==> (encoded_rustflags matches Some(r) ==> string_opt_view(mcpu)
            == spec_target_cpu(r@)),
        mcpu_override is None && encoded_rustflags is None ==> mcpu is None,
{
    match mcpu_override {
        Some(o) => Some(String::from_str(o)),
        None => match encoded_rustflags {
            Some(r) => target_cpu_from_encoded_rustflags(r),
            None => None,
        },
    }
}

// ─── One D compilation ───────────────────────────────────────────────────

/// LDC2's `--preview=` safety flags, with the edition, that every D
/// compilation unit is built under.
pub open spec fn safety_flags() -> Seq<Seq<char>> {
    seq![
        "--edition=2025"@,
        "--preview=safer"@,
        "--preview=dip1000"@,
        "--preview=nosharedaccess"@,
        "--preview=fixImmutableConv"@,
        "--preview=systemVariables"@,
    ]
}

/// `prefix` followed by the value, as a one-argument list, or no argument.
pub open spec fn optional_flag(prefix: Seq<char>, value: Option<Seq<char>>) -> Seq<Seq<char>> {
    match value {
        Some(v) => seq![prefix + v],
        None => Seq::<Seq<char>>::empty(),
    }
}

/// The arguments that LDC2 gets to compile the D source `src` into the
/// object `obj`.
pub open spec fn spec_compile_args(
    obj: Seq<char>,
    src: Seq<char>,
    mtriple: Option<Seq<char>>,
    mcpu: Option<Seq<char>>,
    mattr: Option<Seq<char>>,
) -> Seq<Seq<char>> {
    safety_flags() + seq![
        "--extern-std=c++17"@,
        "-relocation-model=pic"@,
        "-c"@,
        "-of="@ + obj,
        "-Id"@,
    ] + optional_flag("--mtriple="@, mtriple) + optional_flag("-mcpu="@, mcpu) + optional_flag(
        "-mattr="@,
        mattr,
    ) + seq![src]
}

fn push_text(args: &mut Vec<String>, text: String)
    ensures
        strings_view(final(args)@) == strings_view(old(args)@).push(text@),
{
    let ghost before = strings_view(args@);
    args.push(text);
    proof {
        assert(strings_view(args@) =~= before.push(text@));
    }
}

fn push_flag(args: &mut Vec<String>, prefix: &str, value: Option<&str>)
    ensures
        strings_view(final(args)@) == strings_view(old(args)@) + optional_flag(
            prefix@,
            str_opt_view(value),
        ),
{
    match value {
        Some(v) => {
            let mut flag = String::from_str(prefix);
            flag.append(v);
            push_text(args, flag);
            proof {
                assert(strings_view(args@) =~= strings_view(old(args)@) + optional_flag(
                    prefix@,
                    str_opt_view(value),
                ));
            }
        },
        None => {
            proof {
                assert(strings_view(args@) =~= strings_view(old(args)@) + optional_flag(
                    prefix@,
                    str_opt_view(value),
                ));
            }
        },
    }
}

/// The object file that the D source with file stem `stem` compiles to.
pub fn object_file_name(stem: &str) -> (name: String)
    ensures
        name@ == stem@ + ".o"@,
{
    let mut name = String::from_str(stem);
    name.append(".o");
    name
}

/// The argument list of one LDC2 run: the safety flags, C++17 interop,
/// position-independent code, compile only, the object, the `d` import
/// path, then the target triple, CPU and features where given, and last the
/// source.
pub fn ldc2_compile_args(
    obj: &str,
    src: &str,
    mtriple: Option<&str>,
    mcpu: Option<&str>,
    mattr: Option<&str>,
) -> (args: Vec<String>)
    ensures
        strings_view(args@) == spec_compile_args(
            obj@,
            src@,
            str_opt_view(mtriple),
            str_opt_view(mcpu),
            str_opt_view(mattr),
        ),
{
    let mut args: Vec<String> = Vec::new();
    push_text(&mut args, String::from_str("--edition=2025"));
    push_text(&mut args, String::from_str("--preview=safer"));
    push_text(&mut args, String::from_str("--preview=dip1000"));
    push_text(&mut args, String::from_str("--preview=nosharedaccess"));
    push_text(&mut args, String::from_str("--preview=fixImmutableConv"));
    push_text(&mut args, String::from_str("--preview=systemVariables"));
    push_text(&mut args, String::from_str("--extern-std=c++17"));
    push_text(&mut args, String::from_str("-relocation-model=pic"));
    push_text(&mut args, String::from_str("-c"));
    let mut out = String::from_str("-of=");
    out.append(obj);
    push_text(&mut args, out);
    push_text(&mut args, String::from_str("-Id"));
    let ghost fixed = strings_view(args@);
    proof {
        assert(fixed =~= safety_flags() + seq![
            "--extern-std=c++17"@,
            "-relocation-model=pic"@,
            "-c"@,
            "-of="@ + obj@,
            "-Id"@,
        ]);
    }
    push_flag(&mut args, "--mtriple=", mtriple);
    push_flag(&mut args, "-mcpu=", mcpu);
    push_flag(&mut args, "-mattr=", mattr);
    push_text(&mut args, String::from_str(src));
    proof {
        assert(strings_view(args@) =~= spec_compile_args(
            obj@,
            src@,
            str_opt_view(mtriple),
            str_opt_view(mcpu),
            str_opt_view(mattr),
        ));
    }
    args
}

// ─── Runtime libraries ───────────────────────────────────────────────────

/// The architecture's name in LDC2's runtime directory names.
pub open spec fn arch_alias(arch: Seq<char>) -> Seq<char> {
    if arch == "aarch64"@ {
        "arm64"@
    } else if arch == "x86"@ {
        "i686"@
    } else {
        arch
    }
}

/// The runtime directories under the LDC2 root to probe, most specific
/// first: `lib-{os}-{arch}` and `lib-{arch}-{os}` when both are known,
/// `lib-{arch}` when the architecture is, the multilib `lib64` or `lib32`,
/// and last the generic `lib`.
pub open spec fn spec_lib_dir_candidates(arch: Seq<char>, os: Seq<char>) -> Seq<Seq<char>> {
    let alias = arch_alias(arch);
    (if arch.len() > 0 && os.len() > 0 {
        seq!["lib-"@ + os + "-"@ + alias, "lib-"@ + alias + "-"@ + os]
    } else {
        Seq::<Seq<char>>::empty()
    }) + (if arch.len() > 0 {
        seq!["lib-"@ + alias]
    } else {
        Seq::<Seq<char>>::empty()
    }) + (if arch == "x86_64"@ || arch == "aarch64"@ {
        seq!["lib64"@]
    } else if arch == "x86"@ || arch == "arm"@ {
        seq!["lib32"@]
    } else {
        Seq::<Seq<char>>::empty()
    }) + seq!["lib"@]
}

fn join3(a: &str, b: &str, c: &str) -> (joined: String)
    ensures
        joined@ == a@ + b@ + c@,
{
    let mut joined = String::from_str(a);
    joined.append(b);
    joined.append(c);
    joined
}

/// The runtime directory names to probe for `target_arch` and `target_os`
/// (cargo's `CARGO_CFG_TARGET_ARCH` and `CARGO_CFG_TARGET_OS`), in order.
pub fn lib_dir_candidates(target_arch: &str, target_os: &str) -> (names: Vec<String>)
    ensures
        strings_view(names@) == spec_lib_dir_candidates(target_arch@, target_os@),
{
    let alias: &str = if str_eq(target_arch, "aarch64") {
        "arm64"
    } else if str_eq(target_arch, "x86") {
        "i686"
    } else {
        target_arch
    };
    let has_arch = target_arch.unicode_len() > 0;
    let has_os = target_os.unicode_len() > 0;
    let mut names: Vec<String> = Vec::new();
    if has_arch && has_os {
        let mut a = join3("lib-", target_os, "-");
        a.append(alias);
        push_text(&mut names, a);
        let mut b = join3("lib-", alias, "-");
        b.append(target_os);
        push_text(&mut names, b);
    }
    let ghost first = strings_view(names@);
    if has_arch {
        let mut c = String::from_str("lib-");
        c.append(alias);
        push_text(&mut names, c);
    }
    let ghost second = strings_view(names@);
    if str_eq(target_arch, "x86_64") || str_eq(target_arch, "aarch64") {
        push_text(&mut names, String::from_str("lib64"));
    } else if str_eq(target_arch, "x86") || str_eq(target_arch, "arm") {
        push_text(&mut names, String::from_str("lib32"));
    }
    let ghost third = strings_view(names@);
    push_text(&mut names, String::from_str("lib"));
    proof {
        let alias_v = arch_alias(target_arch@);
        assert(alias@ == alias_v);
        assert(first =~= (if target_arch@.len() > 0 && target_os@.len() > 0 {
            seq!["lib-"@ + target_os@ + "-"@ + alias_v, "lib-"@ + alias_v + "-"@ + target_os@]
        } else {
            Seq::<Seq<char>>::empty()
        }));
        assert(strings_view(names@) =~= spec_lib_dir_candidates(target_arch@, target_os@));
    }
    names
}

/// The link directives for the D runtime, as `kind=name`: druntime and
/// phobos always, statically; `pthread`, `m` and `dl` dynamically on Linux
/// only (other systems fold them into their C library or need none).
pub open spec fn spec_link_libs(target_os: Seq<char>) -> Seq<Seq<char>> {
    seq!["static=druntime-ldc"@, "static=phobos2-ldc"@] + if target_os == "linux"@ {
        seq!["dylib=pthread"@, "dylib=m"@, "dylib=dl"@]
    } else {
        Seq::<Seq<char>>::empty()
    }
}

/// What to link for the D runtime on `target_os`.
pub fn link_libs(target_os: &str) -> (libs: Vec<String>)
    ensures
        strings_view(libs@) == spec_link_libs(target_os@),
{
    let mut libs: Vec<String> = Vec::new();
    push_text(&mut libs, String::from_str("static=druntime-ldc"));
    push_text(&mut libs, String::from_str("static=phobos2-ldc"));
    if str_eq(target_os, "linux") {
        push_text(&mut libs, String::from_str("dylib=pthread"));
        push_text(&mut libs, String::from_str("dylib=m"));
        push_text(&mut libs, String::from_str("dylib=dl"));
    }
    proof {
        assert(strings_view(libs@) =~= spec_link_libs(target_os@));
    }
    libs
}

// ─── Finding ldc2 ────────────────────────────────────────────────────────

/// One place to look for the `ldc2` binary.
pub enum Ldc2Probe {
    /// This path, if it is a file.
    File(String),
    /// `ldc2` inside this directory, if it is a file.
    InDir(String),
    /// The first `ldc2` on `$PATH`.
    SearchPath,
    /// The newest `~/.dlang/ldc2-*/bin/ldc2`.
    DlangHome,
}

/// What a probe names, as text.
pub enum Ldc2ProbeView {
    File(Seq<char>),
    InDir(Seq<char>),
    SearchPath,
    DlangHome,
}

impl View for Ldc2Probe {
    type V = Ldc2ProbeView;

    open spec fn view(&self) -> Ldc2ProbeView {
        match self {
            Ldc2Probe::File(p) => Ldc2ProbeView::File(p@),
            Ldc2Probe::InDir(p) => Ldc2ProbeView::InDir(p@),
            Ldc2Probe::SearchPath => Ldc2ProbeView::SearchPath,
            Ldc2Probe::DlangHome => Ldc2ProbeView::DlangHome,
        }
    }
}

/// The probes an environment variable gives: the path itself, then `ldc2`
/// inside it; none when it is unset.
pub open spec fn env_probes(var: Option<Seq<char>>) -> Seq<Ldc2ProbeView> {
    match var {
        Some(p) => seq![Ldc2ProbeView::File(p), Ldc2ProbeView::InDir(p)],
        None => Seq::<Ldc2ProbeView>::empty(),
    }
}

/// The search order for `ldc2`: `$DC`, then `$LDC2_PATH`, then `$PATH`,
/// then `~/.dlang`.
pub open spec fn spec_ldc2_search_order(
    dc: Option<Seq<char>>,
    ldc2_path: Option<Seq<char>>,
) -> Seq<Ldc2ProbeView> {
    env_probes(dc) + env_probes(ldc2_path) + seq![
        Ldc2ProbeView::SearchPath,
        Ldc2ProbeView::DlangHome,
    ]
}

fn push_env_probes(probes: &mut Vec<Ldc2Probe>, var: Option<&str>)
    ensures
        final(probes)@.map_values(|p: Ldc2Probe| p@) == old(probes)@.map_values(
            |p: Ldc2Probe| p@,
        ) + env_probes(str_opt_view(var)),
{
    let ghost before = probes@.map_values(|p: Ldc2Probe| p@);
    if let Some(p) = var {
        probes.push(Ldc2Probe::File(String::from_str(p)));
        probes.push(Ldc2Probe::InDir(String::from_str(p)));
    }
    proof {
        assert(probes@.map_values(|p: Ldc2Probe| p@) =~= before + env_probes(str_opt_view(var)));
    }
}

/// Where to look for `ldc2`, in order, given `$DC` and `$LDC2_PATH`; the
/// first probe that finds a file wins.
pub fn ldc2_search_order(dc: Option<&str>, ldc2_path: Option<&str>) -> (probes: Vec<Ldc2Probe>)
    ensures
        probes@.map_values(|p: Ldc2Probe| p@) == spec_ldc2_search_order(
            str_opt_view(dc),
            str_opt_view(ldc2_path),
        ),
{
    let mut probes: Vec<Ldc2Probe> = Vec::new();
    proof {
        assert(probes@.map_values(|p: Ldc2Probe| p@) =~= Seq::<Ldc2ProbeView>::empty());
    }
    push_env_probes(&mut probes, dc);
    push_env_probes(&mut probes, ldc2_path);
    let ghost before = probes@.map_values(|p: Ldc2Probe| p@);
    probes.push(Ldc2Probe::SearchPath);
    probes.push(Ldc2Probe::DlangHome);
    proof {
        assert(probes@.map_values(|p: Ldc2Probe| p@) =~= before + seq![
            Ldc2ProbeView::SearchPath,
            Ldc2ProbeView::DlangHome,
        ]);
        assert(probes@.map_values(|p: Ldc2Probe| p@) =~= spec_ldc2_search_order(
            str_opt_view(dc),
            str_opt_view(ldc2_path),
        ));
    }
    probes
}

// ─── Ordering paths ──────────────────────────────────────────────────────

/// `a` sorts before `b` when compared character by character from index
/// `i` on, by code point, a proper prefix sorting first (the order of `str`,
/// and of each component of a `Path`).
pub open spec fn text_lt_from(a: Seq<char>, b: Seq<char>, i: int) -> bool
    decreases a.len() - i,
{
    if i < 0 {
        false
    } else if a.len() <= i {
        i < b.len()
    } else if b.len() <= i {
        false
    } else if a[i] != b[i] {
        (a[i] as int) < (b[i] as int)
    } else {
        text_lt_from(a, b, i + 1)
    }
}

/// `a` sorts before `b`.
pub open spec fn text_lt(a: Seq<char>, b: Seq<char>) -> bool {
    text_lt_from(a, b, 0)
}

/// Paths given as component lists, compared component by component from
/// index `i` on, a proper prefix sorting first (the order of `Path`).
pub open spec fn path_lt_from(a: Seq<Seq<char>>, b: Seq<Seq<char>>, i: int) -> bool
    decreases a.len() - i,
{
    if i < 0 {
        false
    } else if a.len() <= i {
        i < b.len()
    } else if b.len() <= i {
        false
    } else if a[i] != b[i] {
        text_lt(a[i], b[i])
    } else {
        path_lt_from(a, b, i + 1)
    }
}

/// The path with components `a` sorts before the one with components `b`.
pub open spec fn path_lt(a: Seq<Seq<char>>, b: Seq<Seq<char>>) -> bool {
    path_lt_from(a, b, 0)
}

proof fn lemma_text_lt_irreflexive(a: Seq<char>, i: int)
    ensures
        !text_lt_from(a, a, i),
    decreases a.len() - i,
{
    if 0 <= i < a.len() {
        lemma_text_lt_irreflexive(a, i + 1);
    }
}

proof fn lemma_text_lt_transitive(a: Seq<char>, b: Seq<char>, c: Seq<char>, i: int)
    requires
        text_lt_from(a, b, i),
        text_lt_from(b, c, i),
    ensures
        text_lt_from(a, c, i),
    decreases a.len() - i,
{
    if 0 <= i < a.len() && i < b.len() && i < c.len() && a[i] == b[i] && b[i] == c[i] {
        lemma_text_lt_transitive(a, b, c, i + 1);
    }
}

/// Two texts that neither sorts before the other agree from index `i` on.
proof fn lemma_text_lt_total(a: Seq<char>, b: Seq<char>, i: int)
    requires
        0 <= i <= a.len(),
        i <= b.len(),
        !text_lt_from(a, b, i),
        !text_lt_from(b, a, i),
    ensures
        a.skip(i) == b.skip(i),
    decreases a.len() - i,
{
    if i < a.len() && i < b.len() && a[i] == b[i] {
        lemma_text_lt_total(a, b, i + 1);
        assert(a.skip(i) =~= seq![a[i]] + a.skip(i + 1));
        assert(b.skip(i) =~= seq![b[i]] + b.skip(i + 1));
    } else if i < a.len() && i < b.len() {
        assert((a[i] as int) != (b[i] as int));
    } else {
        assert(a.skip(i) =~= b.skip(i));
    }
}

proof fn lemma_path_lt_irreflexive(a: Seq<Seq<char>>, i: int)
    ensures
        !path_lt_from(a, a, i),
    decreases a.len() - i,
{
    if 0 <= i < a.len() {
        lemma_path_lt_irreflexive(a, i + 1);
    }
}

proof fn lemma_path_lt_transitive(a: Seq<Seq<char>>, b: Seq<Seq<char>>, c: Seq<Seq<char>>, i: int)
    requires
        path_lt_from(a, b, i),
        path_lt_from(b, c, i),
    ensures
        path_lt_from(a, c, i),
    decreases a.len() - i,
{
    if 0 <= i < a.len() && i < b.len() && i < c.len() {
        if a[i] == b[i] && b[i] == c[i] {
            lemma_path_lt_transitive(a, b, c, i + 1);
        } else if a[i] != b[i] && b[i] != c[i] {
            lemma_text_lt_transitive(a[i], b[i], c[i], 0);
            if a[i] == c[i] {
                lemma_text_lt_irreflexive(a[i], 0);
            }
        }
    }
}

proof fn lemma_path_lt_total(a: Seq<Seq<char>>, b: Seq<Seq<char>>, i: int)
    requires
        0 <= i <= a.len(),
        i <= b.len(),
        !path_lt_from(a, b, i),
        !path_lt_from(b, a, i),
    ensures
        a.skip(i) == b.skip(i),
    decreases a.len() - i,
{
    if i < a.len() && i < b.len() && a[i] == b[i] {
        lemma_path_lt_total(a, b, i + 1);
        assert(a.skip(i) =~= seq![a[i]] + a.skip(i + 1));
        assert(b.skip(i) =~= seq![b[i]] + b.skip(i + 1));
    } else if i < a.len() && i < b.len() {
        lemma_text_lt_total(a[i], b[i], 0);
        assert(a[i] =~= a[i].skip(0));
        assert(b[i] =~= b[i].skip(0));
    } else {
        assert(a.skip(i) =~= b.skip(i));
    }
}

/// The order on paths is a strict total order: no path sorts before
/// itself, sorting before is transitive, and of two different paths one
/// sorts before the other. So a set of paths has one greatest element.
pub proof fn lemma_path_order_is_strict_total(a: Seq<Seq<char>>, b: Seq<Seq<char>>, c: Seq<Seq<char>>)
    ensures
        !path_lt(a, a),
        path_lt(a, b) && path_lt(b, c) ==> path_lt(a, c),
        a != b ==> path_lt(a, b) || path_lt(b, a),
{
    lemma_path_lt_irreflexive(a, 0);
    if path_lt(a, b) && path_lt(b, c) {
        lemma_path_lt_transitive(a, b, c, 0);
    }
    if !path_lt(a, b) && !path_lt(b, a) {
        lemma_path_lt_total(a, b, 0);
        assert(a =~= a.skip(0));
        assert(b =~= b.skip(0));
    }
}

fn text_less(a: &str, b: &str) -> (less: bool)
    ensures
        less == text_lt(a@, b@),
{
    let n = a.unicode_len();
    let m = b.unicode_len();
    let mut i: usize = 0;
    while i < n && i < m
        invariant
            n == a@.len(),
            m == b@.len(),
            i <= n,
            i <= m,
            text_lt_from(a@, b@, i as int) == text_lt(a@, b@),
        decreases n - i,
    {
        let x = a.get_char(i);
        let y = b.get_char(i);
        if x != y {
            return (x as u32) < (y as u32);
        }
        i += 1;
    }
    i < m && i == n
}

fn path_less(a: &Vec<String>, b: &Vec<String>) -> (less: bool)
    ensures
        less == path_lt(strings_view(a@), strings_view(b@)),
{
    let ghost av = strings_view(a@);
    let ghost bv = strings_view(b@);
    let mut i: usize = 0;
    while i < a.len() && i < b.len()
        invariant
            av == strings_view(a@),
            bv == strings_view(b@),
            i <= a.len(),
            i <= b.len(),
            path_lt_from(av, bv, i as int) == path_lt(av, bv),
        decreases a.len() - i,
    {
        assert(av[i as int] == a@[i as int]@);
        assert(bv[i as int] == b@[i as int]@);
        if !str_eq(a[i].as_str(), b[i].as_str()) {
            return text_less(a[i].as_str(), b[i].as_str());
        }
        i += 1;
    }
    i < b.len() && i == a.len()
}

// ─── Choosing the runtime directory ──────────────────────────────────────

/// A candidate runtime directory and whether it holds druntime.
pub struct ProbedDir {
    pub name: String,
    pub has_runtime: bool,
}

/// A directory found by scanning the LDC2 root (`in_lib` false) or its
/// `lib` directory (`in_lib` true), and whether it is a directory that holds
/// druntime.
pub struct ScannedDir {
    pub in_lib: bool,
    pub name: String,
    pub has_runtime: bool,
}

/// A scanned directory's path relative to the LDC2 root, as components.
pub open spec fn scanned_components(d: ScannedDir) -> Seq<Seq<char>> {
    if d.in_lib {
        seq!["lib"@, d.name@]
    } else {
        seq![d.name@]
    }
}

/// A scanned directory may serve: it holds druntime and its name starts
/// with `lib`.
pub open spec fn scanned_usable(d: ScannedDir) -> bool {
    d.has_runtime && after_prefix(d.name@, "lib"@) is Some
}

fn components_of(d: &ScannedDir) -> (parts: Vec<String>)
    ensures
        strings_view(parts@) == scanned_components(*d),
{
    let mut parts: Vec<String> = Vec::new();
    if d.in_lib {
        push_text(&mut parts, String::from_str("lib"));
    }
    push_text(&mut parts, d.name.clone());
    proof {
        assert(strings_view(parts@) =~= scanned_components(*d));
    }
    parts
}

/// Chooses the runtime directory, as components relative to the LDC2 root:
/// the first candidate that holds druntime; else, of the scanned
/// directories that may serve, the one whose path sorts greatest; else the
/// generic `lib`.
pub fn pick_lib_dir(candidates: &Vec<ProbedDir>, scanned: &Vec<ScannedDir>) -> (dir: Vec<String>)
    ensures
        (exists|i: int| 0 <= i < candidates@.len() && candidates@[i].has_runtime) ==> exists|i: int|
            0 <= i < candidates@.len() && candidates@[i].has_runtime && (forall|k: int|
                0 <= k < i ==> !candidates@[k].has_runtime) && strings_view(dir@) == seq![
                candidates@[i].name@,
            ],
        (forall|i: int| 0 <= i < candidates@.len() ==> !candidates@[i].has_runtime) && (exists|
            j: int,
        | 0 <= j < scanned@.len() && scanned_usable(scanned@[j])) ==> exists|j: int|
            0 <= j < scanned@.len() && scanned_usable(scanned@[j]) && strings_view(dir@)
                == scanned_components(scanned@[j]) && (forall|k: int|
                0 <= k < scanned@.len() && scanned_usable(scanned@[k]) ==> !path_lt(
                    scanned_components(scanned@[j]),
                    scanned_components(scanned@[k]),
                )),
        (forall|i: int| 0 <= i < candidates@.len() ==> !candidates@[i].has_runtime) && (forall|
            j: int,
        | 0 <= j < scanned@.len() ==> !scanned_usable(scanned@[j])) ==> strings_view(dir@)
            == seq!["lib"@],
{
    let mut i: usize = 0;
    while i < candidates.len()
        invariant
            i <= candidates.len(),
            forall|k: int| 0 <= k < i ==> !candidates@[k].has_runtime,
        decreases candidates.len() - i,
    {
        if candidates[i].has_runtime {
            let mut dir: Vec<String> = Vec::new();
            push_text(&mut dir, candidates[i].name.clone());
            proof {
                assert(strings_view(dir@) =~= seq![candidates@[i as int].name@]);
            }
            return dir;
        }
        i += 1;
    }
    let mut best: Option<Vec<String>> = None;
    let ghost mut best_at: int = 0;
    let mut j: usize = 0;
    while j < scanned.len()
        invariant
            j <= scanned.len(),
            best is None ==> forall|k: int| 0 <= k < j ==> !scanned_usable(scanned@[k]),
            best matches Some(b) ==> 0 <= best_at < j && scanned_usable(scanned@[best_at])
                && strings_view(b@) == scanned_components(scanned@[best_at]) && (forall|k: int|
                0 <= k < j && scanned_usable(scanned@[k]) ==> !path_lt(
                    scanned_components(scanned@[best_at]),
                    scanned_components(scanned@[k]),
                )),
        decreases scanned.len() - j,
    {
        let d = &scanned[j];
        let usable = d.has_runtime && strip_prefix(d.name.as_str(), "lib").is_some();
        if usable {
            let parts = components_of(d);
            let replace = match &best {
                None => true,
                Some(b) => path_less(b, &parts),
            };
            if replace {
                proof {
                    let cj = scanned_components(scanned@[j as int]);
                    lemma_path_lt_irreflexive(cj, 0);
                    if best is Some {
                        let cb = scanned_components(scanned@[best_at]);
                        assert forall|k: int|
                            0 <= k < j && scanned_usable(scanned@[k]) implies !path_lt(
                            cj,
                            scanned_components(scanned@[k]),
                        ) by {
                            if path_lt(cj, scanned_components(scanned@[k])) {
                                lemma_path_lt_transitive(
                                    cb,
                                    cj,
                                    scanned_components(scanned@[k]),
                                    0,
                                );
                            }
                        }
                    }
                    best_at = j as int;
                }
                best = Some(parts);
            }
        }
        j += 1;
    }
    match best {
        Some(b) => b,
        None => {
            let mut dir: Vec<String> = Vec::new();
            push_text(&mut dir, String::from_str("lib"));
            proof {
                assert(strings_view(dir@) =~= seq!["lib"@]);
            }
            dir
        },
    }
}

// ─── Choosing a toolchain under ~/.dlang ─────────────────────────────────

/// An entry of `~/.dlang` and whether `bin/ldc2` inside it is a file.
pub struct DlangEntry {
    pub name: String,
    pub has_ldc2: bool,
}

/// An entry that holds an LDC2 toolchain: named `ldc2-*`, with a binary.
pub open spec fn dlang_usable(e: DlangEntry) -> bool {
    e.has_ldc2 && after_prefix(e.name@, "ldc2-"@) is Some
}

/// Of the `~/.dlang` entries that hold an LDC2 toolchain, the name that
/// sorts greatest (its `bin/ldc2` path sorts greatest too, since the paths
/// differ in that one component); `None` when there is none.
pub fn pick_dlang_toolchain(entries: &Vec<DlangEntry>) -> (name: Option<String>)
    ensures
        name is None <==> forall|k: int| 0 <= k < entries@.len() ==> !dlang_usable(entries@[k]),
        name matches Some(n) ==> exists|j: int|
            0 <= j < entries@.len() && dlang_usable(entries@[j]) && n@ == entries@[j].name@
                && (forall|k: int|
                0 <= k < entries@.len() && dlang_usable(entries@[k]) ==> !text_lt(
                    n@,
                    entries@[k].name@,
                )),
{
    let mut best: Option<String> = None;
    let ghost mut best_at: int = 0;
    let mut j: usize = 0;
    while j < entries.len()
        invariant
            j <= entries.len(),
            best is None ==> forall|k: int| 0 <= k < j ==> !dlang_usable(entries@[k]),
            best matches Some(b) ==> 0 <= best_at < j && dlang_usable(entries@[best_at]) && b@
                == entries@[best_at].name@ && (forall|k: int|
                0 <= k < j && dlang_usable(entries@[k]) ==> !text_lt(b@, entries@[k].name@)),
        decreases entries.len() - j,
    {
        let e = &entries[j];
        let usable = e.has_ldc2 && strip_prefix(e.name.as_str(), "ldc2-").is_some();
        if usable {
            let replace = match &best {
                None => true,
                Some(b) => text_less(b.as_str(), e.name.as_str()),
            };
            if replace {
                proof {
                    let cj = entries@[j as int].name@;
                    lemma_text_lt_irreflexive(cj, 0);
                    if best is Some {
                        let cb = entries@[best_at].name@;
                        assert forall|k: int|
                            0 <= k < j && dlang_usable(entries@[k]) implies !text_lt(
                            cj,
                            entries@[k].name@,
                        ) by {
                            if text_lt(cj, entries@[k].name@) {
                                lemma_text_lt_transitive(cb, cj, entries@[k].name@, 0);
                            }
                        }
                    }
                    best_at = j as int;
                }
                best = Some(e.name.clone());
            }
        }
        j += 1;
    }
    best
}

// ─── Laws ────────────────────────────────────────────────────────────────

/// Every D compilation unit is built under the curated safety flags: they
/// open its argument list, and the source closes it.
pub proof fn lemma_every_unit_gets_safety_flags(
    obj: Seq<char>,
    src: Seq<char>,
    mtriple: Option<Seq<char>>,
    mcpu: Option<Seq<char>>,
    mattr: Option<Seq<char>>,
)
    ensures
        spec_compile_args(obj, src, mtriple, mcpu, mattr).subrange(0, 6) == seq![
            "--edition=2025"@,
            "--preview=safer"@,
            "--preview=dip1000"@,
            "--preview=nosharedaccess"@,
            "--preview=fixImmutableConv"@,
            "--preview=systemVariables"@,
        ],
        spec_compile_args(obj, src, mtriple, mcpu, mattr).last() == src,
{
    let args = spec_compile_args(obj, src, mtriple, mcpu, mattr);
    assert(args.subrange(0, 6) =~= seq![
        "--edition=2025"@,
        "--preview=safer"@,
        "--preview=dip1000"@,
        "--preview=nosharedaccess"@,
        "--preview=fixImmutableConv"@,
        "--preview=systemVariables"@,
    ]);
}

/// Whatever the target, the generic `lib` directory is probed, and last, so
/// that native builds keep working.
pub proof fn lemma_generic_lib_is_probed_last(arch: Seq<char>, os: Seq<char>)
    ensures
        spec_lib_dir_candidates(arch, os).len() >= 1,
        spec_lib_dir_candidates(arch, os).last() == "lib"@,
{
}

/// `s` holds no `c`.
pub open spec fn free_of(s: Seq<char>, c: char) -> bool {
    forall|i: int| 0 <= i < s.len() ==> s[i] != c
}

proof fn lemma_split_without_separator(s: Seq<char>, sep: char)
    requires
        free_of(s, sep),
    ensures
        split_on(s, sep) == seq![s],
    decreases s.len(),
{
    if s.len() > 0 {
        lemma_split_without_separator(s.drop_last(), sep);
        assert(s.drop_last().push(s.last()) =~= s);
        assert(seq![s.drop_last()].update(0, s.drop_last().push(s.last())) =~= seq![s]);
    } else {
        assert(s =~= Seq::<char>::empty());
    }
}

proof fn lemma_split_appended_field(a: Seq<char>, sep: char, b: Seq<char>)
    requires
        free_of(b, sep),
    ensures
        split_on(a + seq![sep] + b, sep) == split_on(a, sep).push(b),
    decreases b.len(),
{
    let s = a + seq![sep] + b;
    if b.len() == 0 {
        assert(s.drop_last() =~= a);
        assert(b =~= Seq::<char>::empty());
    } else {
        lemma_split_appended_field(a, sep, b.drop_last());
        assert(s.drop_last() =~= a + seq![sep] + b.drop_last());
        assert(s.last() == b.last());
        assert(b.drop_last().push(b.last()) =~= b);
        let prev = split_on(a, sep).push(b.drop_last());
        assert(prev.update(prev.len() - 1, b.drop_last().push(b.last())) =~= split_on(a, sep).push(
            b,
        ));
    }
}

proof fn lemma_split_fields_are_free(s: Seq<char>, sep: char)
    ensures
        forall|k: int| 0 <= k < split_on(s, sep).len() ==> free_of(#[trigger] split_on(s, sep)[k], sep),
    decreases s.len(),
{
    if s.len() > 0 {
        lemma_split_fields_are_free(s.drop_last(), sep);
        lemma_split_has_a_field(s.drop_last(), sep);
    }
}

proof fn lemma_split_of_join(parts: Seq<Seq<char>>, sep: char)
    requires
        parts.len() >= 1,
        forall|k: int| 0 <= k < parts.len() ==> free_of(#[trigger] parts[k], sep),
    ensures
        split_on(join_with(parts, seq![sep]), sep) == parts,
    decreases parts.len(),
{
    if parts.len() == 1 {
        lemma_split_without_separator(parts[0], sep);
        assert(seq![parts[0]] =~= parts);
    } else {
        let init = parts.drop_last();
        assert(forall|k: int| 0 <= k < init.len() ==> #[trigger] init[k] == parts[k]);
        lemma_split_of_join(init, sep);
        assert(free_of(parts[parts.len() - 1], sep));
        lemma_split_appended_field(join_with(init, seq![sep]), sep, parts.last());
        assert(init.push(parts.last()) =~= parts);
    }
}

/// The CPU in `-Ctarget-cpu=C` is `C` whole, whatever characters (such as
/// `-`) it holds.
pub proof fn lemma_joined_cpu_flag_read_whole(cpu: Seq<char>)
    requires
        free_of(cpu, '\x1f'),
    ensures
        spec_target_cpu("-Ctarget-cpu="@ + cpu) == Some(cpu),
{
    reveal_strlit("-Ctarget-cpu=");
    let raw = "-Ctarget-cpu="@ + cpu;
    assert(free_of(raw, '\x1f'));
    lemma_split_without_separator(raw, '\x1f');
    assert(raw.subrange(0, 13) =~= "-Ctarget-cpu="@);
    assert(raw.subrange(13, raw.len() as int) =~= cpu);
}

/// The CPU in `-C` followed by the field `target-cpu=C` is `C` whole,
/// whatever characters (such as `-`) it holds.
pub proof fn lemma_split_cpu_flag_read_whole(cpu: Seq<char>)
    requires
        free_of(cpu, '\x1f'),
    ensures
        spec_target_cpu("-C"@ + seq!['\x1f'] + "target-cpu="@ + cpu) == Some(cpu),
{
    reveal_strlit("-C");
    reveal_strlit("target-cpu=");
    reveal_strlit("-Ctarget-cpu=");
    let second = "target-cpu="@ + cpu;
    assert(free_of(second, '\x1f'));
    assert(free_of("-C"@, '\x1f'));
    lemma_split_without_separator("-C"@, '\x1f');
    assert("-C"@ + seq!['\x1f'] + "target-cpu="@ + cpu =~= "-C"@ + seq!['\x1f'] + second);
    lemma_split_appended_field("-C"@, '\x1f', second);
    let fields = split_on("-C"@ + seq!['\x1f'] + second, '\x1f');
    assert(fields =~= seq!["-C"@, second]);
    assert(after_prefix(fields[0], "-Ctarget-cpu="@) is None);
    assert(second.subrange(0, 11) =~= "target-cpu="@);
    assert(second.subrange(11, second.len() as int) =~= cpu);
}

/// Splitting the `-mattr` value on `,` gives back every non-empty field of
/// the feature list, in order, marked with `+`, and nothing else, whatever
/// characters (such as `.`) a field holds; there is no value exactly when
/// the list has no non-empty field.
pub proof fn lemma_mattr_marks_every_feature(features: Seq<char>)
    ensures
        spec_mattr(features) is None <==> split_on(features, ',').filter(
            |f: Seq<char>| f.len() > 0,
        ).len() == 0,
        spec_mattr(features) matches Some(m) ==> split_on(m, ',') == split_on(features, ',').filter(
            |f: Seq<char>| f.len() > 0,
        ).map_values(|f: Seq<char>| seq!['+'] + f),
{
    let keep = |f: Seq<char>| f.len() > 0;
    let mark = |f: Seq<char>| seq!['+'] + f;
    let all = split_on(features, ',');
    let kept = all.filter(keep);
    if kept.len() > 0 {
        let marked = kept.map_values(mark);
        lemma_split_fields_are_free(features, ',');
        assert forall|k: int| 0 <= k < marked.len() implies free_of(#[trigger] marked[k], ',') by {
            assert(kept.contains(kept[k]));
            all.lemma_filter_contains_rev(keep, kept[k]);
            let j = choose|j: int| 0 <= j < all.len() && all[j] == kept[k];
            assert(free_of(all[j], ','));
            assert(marked[k] == seq!['+'] + kept[k]);
            assert forall|i: int| 0 <= i < marked[k].len() implies marked[k][i] != ',' by {
                if i > 0 {
                    assert(marked[k][i] == kept[k][i - 1]);
                }
            }
        }
        lemma_split_of_join(marked, ',');
    }
}

/// Whatever the CPU and features, a given triple is passed as
/// `--mtriple=T` right after `-Id`; each of the triple, CPU and features
/// adds its one flag exactly when it is given, in that order, between `-Id`
/// and the source.
pub proof fn lemma_compile_args_carry_each_given_value(
    obj: Seq<char>,
    src: Seq<char>,
    mtriple: Option<Seq<char>>,
    mcpu: Option<Seq<char>>,
    mattr: Option<Seq<char>>,
)
    ensures
        ({
            let args = spec_compile_args(obj, src, mtriple, mcpu, mattr);
            let t: int = if mtriple is Some { 1 } else { 0 };
            let c: int = if mcpu is Some { 1 } else { 0 };
            let a: int = if mattr is Some { 1 } else { 0 };
            &&& args.len() == 12 + t + c + a
            &&& args[6] == "--extern-std=c++17"@
            &&& args[7] == "-relocation-model=pic"@
            &&& args[8] == "-c"@
            &&& args[9] == "-of="@ + obj
            &&& args[10] == "-Id"@
            &&& (mtriple matches Some(v) ==> args[11] == "--mtriple="@ + v)
            &&& (mcpu matches Some(v) ==> args[11 + t] == "-mcpu="@ + v)
            &&& (mattr matches Some(v) ==> args[11 + t + c] == "-mattr="@ + v)
            &&& args[11 + t + c + a] == src
        }),
{
}

/// The D runtime is linked statically everywhere; `pthread`, `m` and `dl`
/// are asked for on Linux and nowhere else.
pub proof fn lemma_link_libs_by_os(target_os: Seq<char>)
    ensures
        target_os != "linux"@ ==> spec_link_libs(target_os) == seq![
            "static=druntime-ldc"@,
            "static=phobos2-ldc"@,
        ],
        target_os == "linux"@ ==> spec_link_libs(target_os) == seq![
            "static=druntime-ldc"@,
            "static=phobos2-ldc"@,
            "dylib=pthread"@,
            "dylib=m"@,
            "dylib=dl"@,
        ],
{
    assert(spec_link_libs(target_os) =~= if target_os == "linux"@ {
        seq![
            "static=druntime-ldc"@,
            "static=phobos2-ldc"@,
            "dylib=pthread"@,
            "dylib=m"@,
            "dylib=dl"@,
        ]
    } else {
        seq!["static=druntime-ldc"@, "static=phobos2-ldc"@]
    });
}

// ─── What the triple table keeps ─────────────────────────────────────────

/// The text after the last `-` of `s` (all of `s` when it has none).
pub open spec fn last_component(s: Seq<char>) -> Seq<char>
    decreases s.len(),
{
    if s.len() == 0 {
        s
    } else if s.last() == '-' {
        Seq::<char>::empty()
    } else {
        last_component(s.drop_last()).push(s.last())
    }
}

/// The text before the first `-` of `s` (all of `s` when it has none).
pub open spec fn first_component(s: Seq<char>) -> Seq<char>
    decreases s.len(),
{
    if s.len() == 0 {
        s
    } else if s[0] == '-' {
        Seq::<char>::empty()
    } else {
        seq![s[0]] + first_component(s.drop_first())
    }
}

/// The LDC2 triple `l` keeps what the Rust triple `t` says: its last
/// component (the C library or ABI: `gnu`, `musl`, `msvc`, `gnueabihf`,
/// `android`, `androideabi`) on every target but Apple's (`darwin`, `ios`)
/// and bare wasm (`unknown`); on Apple, the system (`macos…` for `darwin`,
/// `ios…` for `ios`, with the minimum version after it); and its architecture, the first component,
/// which the LDC2 triple's first component begins with, or which Apple
/// alone spells `arm64` for `aarch64`.
pub open spec fn triple_keeps_parts(t: Seq<char>, l: Seq<char>) -> bool {
    &&& (last_component(t) != seq!['d', 'a', 'r', 'w', 'i', 'n'] && last_component(t) != seq!['i', 'o', 's'] && last_component(t)
        != seq!['u', 'n', 'k', 'n', 'o', 'w', 'n'] ==> last_component(l) == last_component(t))
    &&& (last_component(t) == seq!['d', 'a', 'r', 'w', 'i', 'n'] ==> after_prefix(last_component(l), seq!['m', 'a', 'c', 'o', 's']) is Some)
    &&& (last_component(t) == seq!['i', 'o', 's'] ==> after_prefix(last_component(l), seq!['i', 'o', 's']) is Some)
    &&& (after_prefix(first_component(l), first_component(t)) is Some || (first_component(t)
        == seq!['a', 'a', 'r', 'c', 'h', '6', '4'] && first_component(l) == seq!['a', 'r', 'm', '6', '4']))
}

proof fn lemma_entry_keeps_parts(t: Seq<char>, l: Seq<char>, t_last: Seq<char>, l_last: Seq<char>, t_first: Seq<char>, l_first: Seq<char>)
    requires
        last_component(t) == t_last,
        last_component(l) == l_last,
        first_component(t) == t_first,
        first_component(l) == l_first,
        t_last != seq!['d', 'a', 'r', 'w', 'i', 'n'] && t_last != seq!['i', 'o', 's'] && t_last != seq!['u', 'n', 'k', 'n', 'o', 'w', 'n'] ==> l_last == t_last,
        t_last == seq!['d', 'a', 'r', 'w', 'i', 'n'] ==> after_prefix(l_last, seq!['m', 'a', 'c', 'o', 's']) is Some,
        t_last == seq!['i', 'o', 's'] ==> after_prefix(l_last, seq!['i', 'o', 's']) is Some,
        after_prefix(l_first, t_first) is Some || (t_first == seq!['a', 'a', 'r', 'c', 'h', '6', '4'] && l_first == seq!['a', 'r', 'm', '6', '4']),
    ensures
        triple_keeps_parts(t, l),
{
}

proof fn lemma_row_keeps_parts_0()
    ensures
        triple_keeps_parts("x86_64-unknown-linux-gnu"@, "x86_64-linux-gnu"@),
{
    reveal_strlit("x86_64-unknown-linux-gnu");
    reveal_strlit("x86_64-linux-gnu");
    reveal_with_fuel(last_component, 5);
    reveal_with_fuel(first_component, 8);
    assert(last_component("x86_64-unknown-linux-gnu"@) =~= seq!['g', 'n', 'u']);
    assert(last_component("x86_64-linux-gnu"@) =~= seq!['g', 'n', 'u']);
    assert(first_component("x86_64-unknown-linux-gnu"@) =~= seq!['x', '8', '6', '_', '6', '4']);
    assert(first_component("x86_64-linux-gnu"@) =~= seq!['x', '8', '6', '_', '6', '4']);
    assert(seq!['x', '8', '6', '_', '6', '4'].subrange(0, 6) =~= seq!['x', '8', '6', '_', '6', '4']);
    lemma_entry_keeps_parts("x86_64-unknown-linux-gnu"@, "x86_64-linux-gnu"@, seq!['g', 'n', 'u'], seq!['g', 'n', 'u'], seq!['x', '8', '6', '_', '6', '4'], seq!['x', '8', '6', '_', '6', '4']);
}

proof fn lemma_row_keeps_parts_1()
    ensures
        triple_keeps_parts("x86_64-unknown-linux-musl"@, "x86_64-linux-musl"@),
{
    reveal_strlit("x86_64-unknown-linux-musl");
    reveal_strlit("x86_64-linux-musl");
    reveal_with_fuel(last_component, 6);
    reveal_with_fuel(first_component, 8);
    assert(last_component("x86_64-unknown-linux-musl"@) =~= seq!['m', 'u', 's', 'l']);
    assert(last_component("x86_64-linux-musl"@) =~= seq!['m', 'u', 's', 'l']);
    assert(first_component("x86_64-unknown-linux-musl"@) =~= seq!['x', '8', '6', '_', '6', '4']);
    assert(first_component("x86_64-linux-musl"@) =~= seq!['x', '8', '6', '_', '6', '4']);
    assert(seq!['x', '8', '6', '_', '6', '4'].subrange(0, 6) =~= seq!['x', '8', '6', '_', '6', '4']);
    lemma_entry_keeps_parts("x86_64-unknown-linux-musl"@, "x86_64-linux-musl"@, seq!['m', 'u', 's', 'l'], seq!['m', 'u', 's', 'l'], seq!['x', '8', '6', '_', '6', '4'], seq!['x', '8', '6', '_', '6', '4']);
}

proof fn lemma_row_keeps_parts_2()
    ensures
        triple_keeps_parts("x86_64-apple-darwin"@, "x86_64-apple-macos10.12"@),
{
    reveal_strlit("x86_64-apple-darwin");
    reveal_strlit("x86_64-apple-macos10.12");
    reveal_with_fuel(last_component, 12);
    reveal_with_fuel(first_component, 8);
    assert(last_component("x86_64-apple-darwin"@) =~= seq!['d', 'a', 'r', 'w', 'i', 'n']);
    assert(last_component("x86_64-apple-macos10.12"@) =~= seq!['m', 'a', 'c', 'o', 's', '1', '0', '.', '1', '2']);
    assert(seq!['m', 'a', 'c', 'o', 's', '1', '0', '.', '1', '2'].subrange(0, 5) =~= seq!['m', 'a', 'c', 'o', 's']);
    assert(first_component("x86_64-apple-darwin"@) =~= seq!['x', '8', '6', '_', '6', '4']);
    assert(first_component("x86_64-apple-macos10.12"@) =~= seq!['x', '8', '6', '_', '6', '4']);
    assert(seq!['x', '8', '6', '_', '6', '4'].subrange(0, 6) =~= seq!['x', '8', '6', '_', '6', '4']);
    lemma_entry_keeps_parts("x86_64-apple-darwin"@, "x86_64-apple-macos10.12"@, seq!['d', 'a', 'r', 'w', 'i', 'n'], seq!['m', 'a', 'c', 'o', 's', '1', '0', '.', '1', '2'], seq!['x', '8', '6', '_', '6', '4'], seq!['x', '8', '6', '_', '6', '4']);
}

proof fn lemma_row_keeps_parts_3()
    ensures
        triple_keeps_parts("x86_64-pc-windows-msvc"@, "x86_64-windows-msvc"@),
{
    reveal_strlit("x86_64-pc-windows-msvc");
    reveal_strlit("x86_64-windows-msvc");
    reveal_with_fuel(last_component, 6);
    reveal_with_fuel(first_component, 8);
    assert(last_component("x86_64-pc-windows-msvc"@) =~= seq!['m', 's', 'v', 'c']);
    assert(last_component("x86_64-windows-msvc"@) =~= seq!['m', 's', 'v', 'c']);
    assert(first_component("x86_64-pc-windows-msvc"@) =~= seq!['x', '8', '6', '_', '6', '4']);
    assert(first_component("x86_64-windows-msvc"@) =~= seq!['x', '8', '6', '_', '6', '4']);
    assert(seq!['x', '8', '6', '_', '6', '4'].subrange(0, 6) =~= seq!['x', '8', '6', '_', '6', '4']);
    lemma_entry_keeps_parts("x86_64-pc-windows-msvc"@, "x86_64-windows-msvc"@, seq!['m', 's', 'v', 'c'], seq!['m', 's', 'v', 'c'], seq!['x', '8', '6', '_', '6', '4'], seq!['x', '8', '6', '_', '6', '4']);
}

proof fn lemma_row_keeps_parts_4()
    ensures
        triple_keeps_parts("i686-unknown-linux-gnu"@, "i686-linux-gnu"@),
{
    reveal_strlit("i686-unknown-linux-gnu");
    reveal_strlit("i686-linux-gnu");
    reveal_with_fuel(last_component, 5);
    reveal_with_fuel(first_component, 6);
    assert(last_component("i686-unknown-linux-gnu"@) =~= seq!['g', 'n', 'u']);
    assert(last_component("i686-linux-gnu"@) =~= seq!['g', 'n', 'u']);
    assert(first_component("i686-unknown-linux-gnu"@) =~= seq!['i', '6', '8', '6']);
    assert(first_component("i686-linux-gnu"@) =~= seq!['i', '6', '8', '6']);
    assert(seq!['i', '6', '8', '6'].subrange(0, 4) =~= seq!['i', '6', '8', '6']);
    lemma_entry_keeps_parts("i686-unknown-linux-gnu"@, "i686-linux-gnu"@, seq!['g', 'n', 'u'], seq!['g', 'n', 'u'], seq!['i', '6', '8', '6'], seq!['i', '6', '8', '6']);
}

proof fn lemma_row_keeps_parts_5()
    ensures
        triple_keeps_parts("i686-unknown-linux-musl"@, "i686-linux-musl"@),
{
    reveal_strlit("i686-unknown-linux-musl");
    reveal_strlit("i686-linux-musl");
    reveal_with_fuel(last_component, 6);
    reveal_with_fuel(first_component, 6);
    assert(last_component("i686-unknown-linux-musl"@) =~= seq!['m', 'u', 's', 'l']);
    assert(last_component("i686-linux-musl"@) =~= seq!['m', 'u', 's', 'l']);
    assert(first_component("i686-unknown-linux-musl"@) =~= seq!['i', '6', '8', '6']);
    assert(first_component("i686-linux-musl"@) =~= seq!['i', '6', '8', '6']);
    assert(seq!['i', '6', '8', '6'].subrange(0, 4) =~= seq!['i', '6', '8', '6']);
    lemma_entry_keeps_parts("i686-unknown-linux-musl"@, "i686-linux-musl"@, seq!['m', 'u', 's', 'l'], seq!['m', 'u', 's', 'l'], seq!['i', '6', '8', '6'], seq!['i', '6', '8', '6']);
}

proof fn lemma_row_keeps_parts_6()
    ensures
        triple_keeps_parts("i686-pc-windows-msvc"@, "i686-windows-msvc"@),
{
    reveal_strlit("i686-pc-windows-msvc");
    reveal_strlit("i686-windows-msvc");
    reveal_with_fuel(last_component, 6);
    reveal_with_fuel(first_component, 6);
    assert(last_component("i686-pc-windows-msvc"@) =~= seq!['m', 's', 'v', 'c']);
    assert(last_component("i686-windows-msvc"@) =~= seq!['m', 's', 'v', 'c']);
    assert(first_component("i686-pc-windows-msvc"@) =~= seq!['i', '6', '8', '6']);
    assert(first_component("i686-windows-msvc"@) =~= seq!['i', '6', '8', '6']);
    assert(seq!['i', '6', '8', '6'].subrange(0, 4) =~= seq!['i', '6', '8', '6']);
    lemma_entry_keeps_parts("i686-pc-windows-msvc"@, "i686-windows-msvc"@, seq!['m', 's', 'v', 'c'], seq!['m', 's', 'v', 'c'], seq!['i', '6', '8', '6'], seq!['i', '6', '8', '6']);
}

proof fn lemma_row_keeps_parts_7()
    ensures
        triple_keeps_parts("arm-unknown-linux-gnueabihf"@, "armv6-linux-gnueabihf"@),
{
    reveal_strlit("arm-unknown-linux-gnueabihf");
    reveal_strlit("armv6-linux-gnueabihf");
    reveal_with_fuel(last_component, 11);
    reveal_with_fuel(first_component, 7);
    assert(last_component("arm-unknown-linux-gnueabihf"@) =~= seq!['g', 'n', 'u', 'e', 'a', 'b', 'i', 'h', 'f']);
    assert(last_component("armv6-linux-gnueabihf"@) =~= seq!['g', 'n', 'u', 'e', 'a', 'b', 'i', 'h', 'f']);
    assert(first_component("arm-unknown-linux-gnueabihf"@) =~= seq!['a', 'r', 'm']);
    assert(first_component("armv6-linux-gnueabihf"@) =~= seq!['a', 'r', 'm', 'v', '6']);
    assert(seq!['a', 'r', 'm', 'v', '6'].subrange(0, 3) =~= seq!['a', 'r', 'm']);
    lemma_entry_keeps_parts("arm-unknown-linux-gnueabihf"@, "armv6-linux-gnueabihf"@, seq!['g', 'n', 'u', 'e', 'a', 'b', 'i', 'h', 'f'], seq!['g', 'n', 'u', 'e', 'a', 'b', 'i', 'h', 'f'], seq!['a', 'r', 'm'], seq!['a', 'r', 'm', 'v', '6']);
}

proof fn lemma_row_keeps_parts_8()
    ensures
        triple_keeps_parts("armv7-linux-androideabi"@, "armv7a-unknown-linux-androideabi"@),
{
    reveal_strlit("armv7-linux-androideabi");
    reveal_strlit("armv7a-unknown-linux-androideabi");
    reveal_with_fuel(last_component, 13);
    reveal_with_fuel(first_component, 8);
    assert(last_component("armv7-linux-androideabi"@) =~= seq!['a', 'n', 'd', 'r', 'o', 'i', 'd', 'e', 'a', 'b', 'i']);
    assert(last_component("armv7a-unknown-linux-androideabi"@) =~= seq!['a', 'n', 'd', 'r', 'o', 'i', 'd', 'e', 'a', 'b', 'i']);
    assert(first_component("armv7-linux-androideabi"@) =~= seq!['a', 'r', 'm', 'v', '7']);
    assert(first_component("armv7a-unknown-linux-androideabi"@) =~= seq!['a', 'r', 'm', 'v', '7', 'a']);
    assert(seq!['a', 'r', 'm', 'v', '7', 'a'].subrange(0, 5) =~= seq!['a', 'r', 'm', 'v', '7']);
    lemma_entry_keeps_parts("armv7-linux-androideabi"@, "armv7a-unknown-linux-androideabi"@, seq!['a', 'n', 'd', 'r', 'o', 'i', 'd', 'e', 'a', 'b', 'i'], seq!['a', 'n', 'd', 'r', 'o', 'i', 'd', 'e', 'a', 'b', 'i'], seq!['a', 'r', 'm', 'v', '7'], seq!['a', 'r', 'm', 'v', '7', 'a']);
}

proof fn lemma_row_keeps_parts_9()
    ensures
        triple_keeps_parts("aarch64-linux-android"@, "aarch64-linux-android"@),
{
    reveal_strlit("aarch64-linux-android");
    reveal_strlit("aarch64-linux-android");
    reveal_with_fuel(last_component, 9);
    reveal_with_fuel(first_component, 9);
    assert(last_component("aarch64-linux-android"@) =~= seq!['a', 'n', 'd', 'r', 'o', 'i', 'd']);
    assert(last_component("aarch64-linux-android"@) =~= seq!['a', 'n', 'd', 'r', 'o', 'i', 'd']);
    assert(first_component("aarch64-linux-android"@) =~= seq!['a', 'a', 'r', 'c', 'h', '6', '4']);
    assert(first_component("aarch64-linux-android"@) =~= seq!['a', 'a', 'r', 'c', 'h', '6', '4']);
    assert(seq!['a', 'a', 'r', 'c', 'h', '6', '4'].subrange(0, 7) =~= seq!['a', 'a', 'r', 'c', 'h', '6', '4']);
    lemma_entry_keeps_parts("aarch64-linux-android"@, "aarch64-linux-android"@, seq!['a', 'n', 'd', 'r', 'o', 'i', 'd'], seq!['a', 'n', 'd', 'r', 'o', 'i', 'd'], seq!['a', 'a', 'r', 'c', 'h', '6', '4'], seq!['a', 'a', 'r', 'c', 'h', '6', '4']);
}

proof fn lemma_row_keeps_parts_10()
    ensures
        triple_keeps_parts("aarch64-unknown-linux-gnu"@, "aarch64-linux-gnu"@),
{
    reveal_strlit("aarch64-unknown-linux-gnu");
    reveal_strlit("aarch64-linux-gnu");
    reveal_with_fuel(last_component, 5);
    reveal_with_fuel(first_component, 9);
    assert(last_component("aarch64-unknown-linux-gnu"@) =~= seq!['g', 'n', 'u']);
    assert(last_component("aarch64-linux-gnu"@) =~= seq!['g', 'n', 'u']);
    assert(first_component("aarch64-unknown-linux-gnu"@) =~= seq!['a', 'a', 'r', 'c', 'h', '6', '4']);
    assert(first_component("aarch64-linux-gnu"@) =~= seq!['a', 'a', 'r', 'c', 'h', '6', '4']);
    assert(seq!['a', 'a', 'r', 'c', 'h', '6', '4'].subrange(0, 7) =~= seq!['a', 'a', 'r', 'c', 'h', '6', '4']);
    lemma_entry_keeps_parts("aarch64-unknown-linux-gnu"@, "aarch64-linux-gnu"@, seq!['g', 'n', 'u'], seq!['g', 'n', 'u'], seq!['a', 'a', 'r', 'c', 'h', '6', '4'], seq!['a', 'a', 'r', 'c', 'h', '6', '4']);
}

proof fn lemma_row_keeps_parts_11()
    ensures
        triple_keeps_parts("aarch64-apple-darwin"@, "arm64-apple-macos11.0"@),
{
    reveal_strlit("aarch64-apple-darwin");
    reveal_strlit("arm64-apple-macos11.0");
    reveal_with_fuel(last_component, 11);
    reveal_with_fuel(first_component, 9);
    assert(last_component("aarch64-apple-darwin"@) =~= seq!['d', 'a', 'r', 'w', 'i', 'n']);
    assert(last_component("arm64-apple-macos11.0"@) =~= seq!['m', 'a', 'c', 'o', 's', '1', '1', '.', '0']);
    assert(seq!['m', 'a', 'c', 'o', 's', '1', '1', '.', '0'].subrange(0, 5) =~= seq!['m', 'a', 'c', 'o', 's']);
    assert(first_component("aarch64-apple-darwin"@) =~= seq!['a', 'a', 'r', 'c', 'h', '6', '4']);
    assert(first_component("arm64-apple-macos11.0"@) =~= seq!['a', 'r', 'm', '6', '4']);
    lemma_entry_keeps_parts("aarch64-apple-darwin"@, "arm64-apple-macos11.0"@, seq!['d', 'a', 'r', 'w', 'i', 'n'], seq!['m', 'a', 'c', 'o', 's', '1', '1', '.', '0'], seq!['a', 'a', 'r', 'c', 'h', '6', '4'], seq!['a', 'r', 'm', '6', '4']);
}

proof fn lemma_row_keeps_parts_12()
    ensures
        triple_keeps_parts("aarch64-apple-ios"@, "arm64-apple-ios12.0"@),
{
    reveal_strlit("aarch64-apple-ios");
    reveal_strlit("arm64-apple-ios12.0");
    reveal_with_fuel(last_component, 9);
    reveal_with_fuel(first_component, 9);
    assert(last_component("aarch64-apple-ios"@) =~= seq!['i', 'o', 's']);
    assert(last_component("arm64-apple-ios12.0"@) =~= seq!['i', 'o', 's', '1', '2', '.', '0']);
    assert(seq!['i', 'o', 's', '1', '2', '.', '0'].subrange(0, 3) =~= seq!['i', 'o', 's']);
    assert(first_component("aarch64-apple-ios"@) =~= seq!['a', 'a', 'r', 'c', 'h', '6', '4']);
    assert(first_component("arm64-apple-ios12.0"@) =~= seq!['a', 'r', 'm', '6', '4']);
    lemma_entry_keeps_parts("aarch64-apple-ios"@, "arm64-apple-ios12.0"@, seq!['i', 'o', 's'], seq!['i', 'o', 's', '1', '2', '.', '0'], seq!['a', 'a', 'r', 'c', 'h', '6', '4'], seq!['a', 'r', 'm', '6', '4']);
}

proof fn lemma_row_keeps_parts_13()
    ensures
        triple_keeps_parts("wasm32-unknown-unknown"@, "wasm32-unknown-unknown-webassembly"@),
{
    reveal_strlit("wasm32-unknown-unknown");
    reveal_strlit("wasm32-unknown-unknown-webassembly");
    reveal_with_fuel(last_component, 9);
    reveal_with_fuel(first_component, 8);
    assert(last_component("wasm32-unknown-unknown"@) =~= seq!['u', 'n', 'k', 'n', 'o', 'w', 'n']);
    assert(first_component("wasm32-unknown-unknown"@) =~= seq!['w', 'a', 's', 'm', '3', '2']);
    assert(first_component("wasm32-unknown-unknown-webassembly"@) =~= seq!['w', 'a', 's', 'm', '3', '2']);
    assert(seq!['w', 'a', 's', 'm', '3', '2'].subrange(0, 6) =~= seq!['w', 'a', 's', 'm', '3', '2']);
    lemma_entry_keeps_parts("wasm32-unknown-unknown"@, "wasm32-unknown-unknown-webassembly"@, seq!['u', 'n', 'k', 'n', 'o', 'w', 'n'], last_component("wasm32-unknown-unknown-webassembly"@), seq!['w', 'a', 's', 'm', '3', '2'], seq!['w', 'a', 's', 'm', '3', '2']);
}

/// Each Rust target that the table knows gets an LDC2 triple for the same
/// architecture and, off Apple and bare wasm, the same C library or ABI: a
/// `*-linux-musl` target is built for musl, a `*-linux-gnu` one for glibc.
pub proof fn lemma_triple_table_keeps_target_parts(target: Seq<char>)
    ensures
        spec_ldc2_triple(target) matches Some(l) ==> triple_keeps_parts(target, l),
{
    if target == "x86_64-unknown-linux-gnu"@ {
        lemma_row_keeps_parts_0();
    } else if target == "x86_64-unknown-linux-musl"@ {
        lemma_row_keeps_parts_1();
    } else if target == "x86_64-apple-darwin"@ {
        lemma_row_keeps_parts_2();
    } else if target == "x86_64-pc-windows-msvc"@ {
        lemma_row_keeps_parts_3();
    } else if target == "i686-unknown-linux-gnu"@ {
        lemma_row_keeps_parts_4();
    } else if target == "i686-unknown-linux-musl"@ {
        lemma_row_keeps_parts_5();
    } else if target == "i686-pc-windows-msvc"@ {
        lemma_row_keeps_parts_6();
    } else if target == "arm-unknown-linux-gnueabihf"@ {
        lemma_row_keeps_parts_7();
    } else if target == "armv7-linux-androideabi"@ {
        lemma_row_keeps_parts_8();
    } else if target == "aarch64-linux-android"@ {
        lemma_row_keeps_parts_9();
    } else if target == "aarch64-unknown-linux-gnu"@ {
        lemma_row_keeps_parts_10();
    } else if target == "aarch64-apple-darwin"@ {
        lemma_row_keeps_parts_11();
    } else if target == "aarch64-apple-ios"@ {
        lemma_row_keeps_parts_12();
    } else if target == "wasm32-unknown-unknown"@ {
        lemma_row_keeps_parts_13();
    }
}

// ─── Laws of splitting and of reading the CPU ────────────────────────────

proof fn lemma_split_concat(a: Seq<char>, sep: char, b: Seq<char>)
    ensures
        split_on(a + seq![sep] + b, sep) == split_on(a, sep) + split_on(b, sep),
    decreases b.len(),
{
    let s = a + seq![sep] + b;
    lemma_split_has_a_field(a, sep);
    if b.len() == 0 {
        assert(s.drop_last() =~= a);
        assert(b =~= Seq::<char>::empty());
        assert(split_on(a, sep).push(Seq::<char>::empty()) =~= split_on(a, sep) + seq![
            Seq::<char>::empty(),
        ]);
    } else {
        lemma_split_concat(a, sep, b.drop_last());
        lemma_split_has_a_field(b.drop_last(), sep);
        assert(s.drop_last() =~= a + seq![sep] + b.drop_last());
        assert(s.last() == b.last());
        let fa = split_on(a, sep);
        let fb = split_on(b.drop_last(), sep);
        if b.last() == sep {
            assert((fa + fb).push(Seq::<char>::empty()) =~= fa + fb.push(Seq::<char>::empty()));
        } else {
            assert((fa + fb).update(
                (fa + fb).len() - 1,
                (fa + fb).last().push(b.last()),
            ) =~= fa + fb.update(fb.len() - 1, fb.last().push(b.last())));
        }
    }
}

/// Splitting on `sep` and joining the fields back with `sep` gives the text
/// back, and no field holds `sep`: so the fields are exactly the pieces
/// between the separators.
pub proof fn lemma_split_round_trip(s: Seq<char>, sep: char)
    ensures
        join_with(split_on(s, sep), seq![sep]) == s,
        forall|k: int| 0 <= k < split_on(s, sep).len() ==> free_of(#[trigger] split_on(s, sep)[k], sep),
    decreases s.len(),
{
    lemma_split_fields_are_free(s, sep);
    if s.len() > 0 {
        lemma_split_round_trip(s.drop_last(), sep);
        lemma_split_has_a_field(s.drop_last(), sep);
        let f = split_on(s.drop_last(), sep);
        if s.last() == sep {
            let g = f.push(Seq::<char>::empty());
            assert(g.drop_last() =~= f);
            assert(join_with(g, seq![sep]) =~= s);
        } else {
            let g = f.update(f.len() - 1, f.last().push(s.last()));
            if f.len() == 1 {
                assert(join_with(g, seq![sep]) =~= s);
            } else {
                assert(g.drop_last() =~= f.drop_last());
                assert(join_with(f, seq![sep]) == join_with(f.drop_last(), seq![sep]) + seq![sep]
                    + f.last());
                assert(join_with(g, seq![sep]) == join_with(f.drop_last(), seq![sep]) + seq![sep]
                    + f.last().push(s.last()));
                assert(s =~= s.drop_last().push(s.last()));
                assert(join_with(g, seq![sep]) =~= s);
            }
        }
    } else {
        assert(join_with(split_on(s, sep), seq![sep]) =~= s);
    }
}

proof fn lemma_cpu_scan_shift(f: Seq<char>, rest: Seq<Seq<char>>, i: int)
    requires
        0 <= i,
    ensures
        cpu_scan(seq![f] + rest, i + 1) == cpu_scan(rest, i),
    decreases rest.len() - i,
{
    let all = seq![f] + rest;
    if i < rest.len() {
        assert(all[i + 1] == rest[i]);
        lemma_cpu_scan_shift(f, rest, i + 1);
        if i + 1 < rest.len() {
            assert(all[i + 2] == rest[i + 1]);
            lemma_cpu_scan_shift(f, rest, i + 2);
        }
    }
}

proof fn lemma_cpu_scan_from_fields(raw: Seq<char>, field: Seq<char>, rest: Seq<char>)
    requires
        raw == field + seq!['\x1f'] + rest,
        free_of(field, '\x1f'),
    ensures
        split_on(raw, '\x1f') == seq![field] + split_on(rest, '\x1f'),
{
    lemma_split_concat(field, '\x1f', rest);
    lemma_split_without_separator(field, '\x1f');
}

/// The first field that names a CPU decides, whatever follows it:
/// `-Ctarget-cpu=C`, then anything, reads `C`.
pub proof fn lemma_first_cpu_flag_wins(cpu: Seq<char>, rest: Seq<char>)
    requires
        free_of(cpu, '\x1f'),
    ensures
        spec_target_cpu("-Ctarget-cpu="@ + cpu + seq!['\x1f'] + rest) == Some(cpu),
{
    reveal_strlit("-Ctarget-cpu=");
    let field = "-Ctarget-cpu="@ + cpu;
    assert(free_of(field, '\x1f'));
    assert("-Ctarget-cpu="@ + cpu + seq!['\x1f'] + rest =~= field + seq!['\x1f'] + rest);
    lemma_cpu_scan_from_fields(field + seq!['\x1f'] + rest, field, rest);
    assert(field.subrange(0, 13) =~= "-Ctarget-cpu="@);
    assert(field.subrange(13, field.len() as int) =~= cpu);
}

/// A field that names no CPU and is not `-C` is skipped: what follows it
/// decides.
pub proof fn lemma_other_field_skipped(field: Seq<char>, rest: Seq<char>)
    requires
        free_of(field, '\x1f'),
        after_prefix(field, "-Ctarget-cpu="@) is None,
        field != "-C"@,
    ensures
        spec_target_cpu(field + seq!['\x1f'] + rest) == spec_target_cpu(rest),
{
    lemma_cpu_scan_from_fields(field + seq!['\x1f'] + rest, field, rest);
    lemma_cpu_scan_shift(field, split_on(rest, '\x1f'), 0);
}

/// A `-C` takes the field after it with it: when that field names no CPU,
/// what follows both decides.
pub proof fn lemma_dash_c_takes_next_field(next: Seq<char>, rest: Seq<char>)
    requires
        free_of(next, '\x1f'),
        after_prefix(next, "target-cpu="@) is None,
    ensures
        spec_target_cpu("-C"@ + seq!['\x1f'] + next + seq!['\x1f'] + rest) == spec_target_cpu(rest),
{
    reveal_strlit("-C");
    reveal_strlit("-Ctarget-cpu=");
    assert(free_of("-C"@, '\x1f'));
    let tail = next + seq!['\x1f'] + rest;
    assert("-C"@ + seq!['\x1f'] + next + seq!['\x1f'] + rest =~= "-C"@ + seq!['\x1f'] + tail);
    lemma_cpu_scan_from_fields("-C"@ + seq!['\x1f'] + tail, "-C"@, tail);
    lemma_cpu_scan_from_fields(tail, next, rest);
    let fr = split_on(rest, '\x1f');
    let all = seq!["-C"@] + (seq![next] + fr);
    assert(all[0] == "-C"@);
    assert(all[1] == next);
    assert(after_prefix(all[0], "-Ctarget-cpu="@) is None);
    lemma_cpu_scan_shift(next, fr, 0);
    lemma_cpu_scan_shift("-C"@, seq![next] + fr, 1);
}

/// No CPU is read from empty flags, nor from a lone `-C` at the end.
pub proof fn lemma_no_cpu_without_flag()
    ensures
        spec_target_cpu(Seq::<char>::empty()) is None,
        spec_target_cpu("-C"@) is None,
{
    reveal_strlit("-C");
    reveal_strlit("-Ctarget-cpu=");
    lemma_split_without_separator(Seq::<char>::empty(), '\x1f');
    let none = split_on(Seq::<char>::empty(), '\x1f');
    assert(none[0].len() == 0);
    assert(none[0] != "-C"@);
    assert(after_prefix(none[0], "-Ctarget-cpu="@) is None);
    assert(cpu_scan(none, 1) is None);
    assert(cpu_scan(none, 0) is None);
    assert(free_of("-C"@, '\x1f'));
    lemma_split_without_separator("-C"@, '\x1f');
    let fields = split_on("-C"@, '\x1f');
    assert(fields[0] == "-C"@);
    assert(after_prefix(fields[0], "-Ctarget-cpu="@) is None);
    assert(cpu_scan(fields, 0) is None);
}

// ─── Laws of the triple table and the path order ─────────────────────────

/// The table knows these fourteen Rust targets and no other.
pub proof fn lemma_triple_table_domain(target: Seq<char>)
    ensures
        spec_ldc2_triple(target) is Some <==> (target == "x86_64-unknown-linux-gnu"@ || target
            == "x86_64-unknown-linux-musl"@ || target == "x86_64-apple-darwin"@ || target
            == "x86_64-pc-windows-msvc"@ || target == "i686-unknown-linux-gnu"@ || target
            == "i686-unknown-linux-musl"@ || target == "i686-pc-windows-msvc"@ || target
            == "arm-unknown-linux-gnueabihf"@ || target == "armv7-linux-androideabi"@ || target
            == "aarch64-linux-android"@ || target == "aarch64-unknown-linux-gnu"@ || target
            == "aarch64-apple-darwin"@ || target == "aarch64-apple-ios"@ || target
            == "wasm32-unknown-unknown"@),
{
}

proof fn lemma_text_lt_after_common_prefix(p: Seq<char>, a: Seq<char>, b: Seq<char>, i: int)
    requires
        0 <= i <= p.len(),
    ensures
        text_lt_from(p + a, p + b, i) == text_lt_from(a, b, 0),
    decreases p.len() - i,
{
    if i < p.len() {
        assert((p + a)[i] == (p + b)[i]);
        lemma_text_lt_after_common_prefix(p, a, b, i + 1);
    } else {
        lemma_text_lt_shift(p, a, b, 0);
    }
}

proof fn lemma_text_lt_shift(p: Seq<char>, a: Seq<char>, b: Seq<char>, j: int)
    requires
        0 <= j,
    ensures
        text_lt_from(p + a, p + b, p.len() + j) == text_lt_from(a, b, j),
    decreases a.len() - j,
{
    if j < a.len() && j < b.len() {
        assert((p + a)[p.len() + j] == a[j]);
        assert((p + b)[p.len() + j] == b[j]);
        lemma_text_lt_shift(p, a, b, j + 1);
    }
}

/// Texts sort by their first differing character, by code point; a text
/// sorts before every longer text that it begins.
pub proof fn lemma_text_order_by_first_difference(
    p: Seq<char>,
    x: char,
    y: char,
    a: Seq<char>,
    b: Seq<char>,
)
    ensures
        x != y ==> (text_lt(p + seq![x] + a, p + seq![y] + b) <==> (x as int) < (y as int)),
        b.len() > 0 ==> text_lt(p, p + b),
        !text_lt(p + b, p),
{
    assert(p + seq![x] + a =~= p + (seq![x] + a));
    assert(p + seq![y] + b =~= p + (seq![y] + b));
    lemma_text_lt_after_common_prefix(p, seq![x] + a, seq![y] + b, 0);
    assert((seq![x] + a)[0] == x);
    assert((seq![y] + b)[0] == y);
    assert(p =~= p + Seq::<char>::empty());
    lemma_text_lt_after_common_prefix(p, Seq::<char>::empty(), b, 0);
    lemma_text_lt_after_common_prefix(p, b, Seq::<char>::empty(), 0);
}

// ─── Laws of the runtime directories and the ldc2 search ─────────────────

/// The runtime directories probed for each kind of architecture: `aarch64`
/// is spelt `arm64` and `x86` is spelt `i686` in directory names; 64-bit
/// `x86_64` and `aarch64` add `lib64`, 32-bit `x86` and `arm` add `lib32`;
/// without an architecture only `lib` is probed, and without a system the
/// two `os` forms are left out.
pub proof fn lemma_lib_dir_candidates_by_arch(arch: Seq<char>, os: Seq<char>)
    ensures
        arch == "aarch64"@ && os.len() > 0 ==> spec_lib_dir_candidates(arch, os) == seq![
            "lib-"@ + os + "-"@ + "arm64"@,
            "lib-"@ + "arm64"@ + "-"@ + os,
            "lib-"@ + "arm64"@,
            "lib64"@,
            "lib"@,
        ],
        arch == "x86"@ && os.len() > 0 ==> spec_lib_dir_candidates(arch, os) == seq![
            "lib-"@ + os + "-"@ + "i686"@,
            "lib-"@ + "i686"@ + "-"@ + os,
            "lib-"@ + "i686"@,
            "lib32"@,
            "lib"@,
        ],
        arch == "x86_64"@ && os.len() > 0 ==> spec_lib_dir_candidates(arch, os) == seq![
            "lib-"@ + os + "-"@ + arch,
            "lib-"@ + arch + "-"@ + os,
            "lib-"@ + arch,
            "lib64"@,
            "lib"@,
        ],
        arch == "arm"@ && os.len() > 0 ==> spec_lib_dir_candidates(arch, os) == seq![
            "lib-"@ + os + "-"@ + arch,
            "lib-"@ + arch + "-"@ + os,
            "lib-"@ + arch,
            "lib32"@,
            "lib"@,
        ],
        arch.len() > 0 && os.len() > 0 && arch != "aarch64"@ && arch != "x86"@ && arch
            != "x86_64"@ && arch != "arm"@ ==> spec_lib_dir_candidates(arch, os) == seq![
            "lib-"@ + os + "-"@ + arch,
            "lib-"@ + arch + "-"@ + os,
            "lib-"@ + arch,
            "lib"@,
        ],
        arch.len() == 0 ==> spec_lib_dir_candidates(arch, os) == seq!["lib"@],
        arch.len() > 0 && os.len() == 0 ==> spec_lib_dir_candidates(arch, os).len() >= 2
            && spec_lib_dir_candidates(arch, os)[0] == "lib-"@ + arch_alias(arch),
{
    reveal_strlit("aarch64");
    reveal_strlit("x86");
    reveal_strlit("x86_64");
    reveal_strlit("arm");
    assert("arm"@[0] != "x86"@[0]);
    assert("arm"@ != "x86"@);
    let c = spec_lib_dir_candidates(arch, os);
    if arch.len() == 0 {
        assert(arch == Seq::<char>::empty());
        assert(c =~= seq!["lib"@]);
    } else if os.len() > 0 {
        if arch == "aarch64"@ {
            assert(c =~= seq![
                "lib-"@ + os + "-"@ + "arm64"@,
                "lib-"@ + "arm64"@ + "-"@ + os,
                "lib-"@ + "arm64"@,
                "lib64"@,
                "lib"@,
            ]);
        } else if arch == "x86"@ {
            assert(c =~= seq![
                "lib-"@ + os + "-"@ + "i686"@,
                "lib-"@ + "i686"@ + "-"@ + os,
                "lib-"@ + "i686"@,
                "lib32"@,
                "lib"@,
            ]);
        } else if arch == "x86_64"@ {
            assert(c =~= seq![
                "lib-"@ + os + "-"@ + arch,
                "lib-"@ + arch + "-"@ + os,
                "lib-"@ + arch,
                "lib64"@,
                "lib"@,
            ]);
        } else if arch == "arm"@ {
            assert(c =~= seq![
                "lib-"@ + os + "-"@ + arch,
                "lib-"@ + arch + "-"@ + os,
                "lib-"@ + arch,
                "lib32"@,
                "lib"@,
            ]);
        } else {
            assert(c =~= seq!["lib-"@ + os + "-"@ + arch, "lib-"@ + arch + "-"@ + os, "lib-"@ + arch, "lib"@]);
        }
    } else {
        assert(c[0] == "lib-"@ + arch_alias(arch));
    }
}

/// `ldc2` is looked for first through `$DC` (the path, then `ldc2` inside
/// it), then through `$LDC2_PATH` the same way, then on `$PATH`, and last
/// under `~/.dlang`; an unset variable adds no probe.
pub proof fn lemma_ldc2_search_priority(dc: Option<Seq<char>>, ldc2_path: Option<Seq<char>>)
    ensures
        ({
            let order = spec_ldc2_search_order(dc, ldc2_path);
            let d: int = if dc is Some { 2 } else { 0 };
            let p: int = if ldc2_path is Some { 2 } else { 0 };
            &&& order.len() == d + p + 2
            &&& (dc matches Some(v) ==> order[0] == Ldc2ProbeView::File(v) && order[1]
                == Ldc2ProbeView::InDir(v))
            &&& (ldc2_path matches Some(v) ==> order[d] == Ldc2ProbeView::File(v) && order[d + 1]
                == Ldc2ProbeView::InDir(v))
            &&& order[d + p] == Ldc2ProbeView::SearchPath
            &&& order[d + p + 1] == Ldc2ProbeView::DlangHome
        }),
{
}

// ─── The triple table, entry by entry ────────────────────────────────────

proof fn lemma_table_row_0()
    ensures
        spec_ldc2_triple("x86_64-unknown-linux-gnu"@) == Some("x86_64-linux-gnu"@),
{
    reveal_strlit("x86_64-unknown-linux-gnu");
}

proof fn lemma_table_row_1()
    ensures
        spec_ldc2_triple("x86_64-unknown-linux-musl"@) == Some("x86_64-linux-musl"@),
{
    reveal_strlit("x86_64-unknown-linux-musl");
    reveal_strlit("x86_64-unknown-linux-gnu");
    assert("x86_64-unknown-linux-musl"@.len() == 25 && "x86_64-unknown-linux-gnu"@.len() == 24);
    assert("x86_64-unknown-linux-musl"@ != "x86_64-unknown-linux-gnu"@);
}

proof fn lemma_table_row_2()
    ensures
        spec_ldc2_triple("x86_64-apple-darwin"@) == Some("x86_64-apple-macos10.12"@),
{
    reveal_strlit("x86_64-apple-darwin");
    reveal_strlit("x86_64-unknown-linux-gnu");
    assert("x86_64-apple-darwin"@.len() == 19 && "x86_64-unknown-linux-gnu"@.len() == 24);
    assert("x86_64-apple-darwin"@ != "x86_64-unknown-linux-gnu"@);
    reveal_strlit("x86_64-unknown-linux-musl");
    assert("x86_64-apple-darwin"@.len() == 19 && "x86_64-unknown-linux-musl"@.len() == 25);
    assert("x86_64-apple-darwin"@ != "x86_64-unknown-linux-musl"@);
}

proof fn lemma_table_row_3()
    ensures
        spec_ldc2_triple("x86_64-pc-windows-msvc"@) == Some("x86_64-windows-msvc"@),
{
    reveal_strlit("x86_64-pc-windows-msvc");
    reveal_strlit("x86_64-unknown-linux-gnu");
    assert("x86_64-pc-windows-msvc"@.len() == 22 && "x86_64-unknown-linux-gnu"@.len() == 24);
    assert("x86_64-pc-windows-msvc"@ != "x86_64-unknown-linux-gnu"@);
    reveal_strlit("x86_64-unknown-linux-musl");
    assert("x86_64-pc-windows-msvc"@.len() == 22 && "x86_64-unknown-linux-musl"@.len() == 25);
    assert("x86_64-pc-windows-msvc"@ != "x86_64-unknown-linux-musl"@);
    reveal_strlit("x86_64-apple-darwin");
    assert("x86_64-pc-windows-msvc"@.len() == 22 && "x86_64-apple-darwin"@.len() == 19);
    assert("x86_64-pc-windows-msvc"@ != "x86_64-apple-darwin"@);
}

proof fn lemma_table_row_4()
    ensures
        spec_ldc2_triple("i686-unknown-linux-gnu"@) == Some("i686-linux-gnu"@),
{
    reveal_strlit("i686-unknown-linux-gnu");
    reveal_strlit("x86_64-unknown-linux-gnu");
    assert("i686-unknown-linux-gnu"@.len() == 22 && "x86_64-unknown-linux-gnu"@.len() == 24);
    assert("i686-unknown-linux-gnu"@ != "x86_64-unknown-linux-gnu"@);
    reveal_strlit("x86_64-unknown-linux-musl");
    assert("i686-unknown-linux-gnu"@.len() == 22 && "x86_64-unknown-linux-musl"@.len() == 25);
    assert("i686-unknown-linux-gnu"@ != "x86_64-unknown-linux-musl"@);
    reveal_strlit("x86_64-apple-darwin");
    assert("i686-unknown-linux-gnu"@.len() == 22 && "x86_64-apple-darwin"@.len() == 19);
    assert("i686-unknown-linux-gnu"@ != "x86_64-apple-darwin"@);
    reveal_strlit("x86_64-pc-windows-msvc");
    assert("i686-unknown-linux-gnu"@[0] != "x86_64-pc-windows-msvc"@[0]);
    assert("i686-unknown-linux-gnu"@.len() == 22 && "x86_64-pc-windows-msvc"@.len() == 22);
    assert("i686-unknown-linux-gnu"@ != "x86_64-pc-windows-msvc"@);
}

proof fn lemma_table_row_5()
    ensures
        spec_ldc2_triple("i686-unknown-linux-musl"@) == Some("i686-linux-musl"@),
{
    reveal_strlit("i686-unknown-linux-musl");
    reveal_strlit("x86_64-unknown-linux-gnu");
    assert("i686-unknown-linux-musl"@.len() == 23 && "x86_64-unknown-linux-gnu"@.len() == 24);
    assert("i686-unknown-linux-musl"@ != "x86_64-unknown-linux-gnu"@);
    reveal_strlit("x86_64-unknown-linux-musl");
    assert("i686-unknown-linux-musl"@.len() == 23 && "x86_64-unknown-linux-musl"@.len() == 25);
    assert("i686-unknown-linux-musl"@ != "x86_64-unknown-linux-musl"@);
    reveal_strlit("x86_64-apple-darwin");
    assert("i686-unknown-linux-musl"@.len() == 23 && "x86_64-apple-darwin"@.len() == 19);
    assert("i686-unknown-linux-musl"@ != "x86_64-apple-darwin"@);
    reveal_strlit("x86_64-pc-windows-msvc");
    assert("i686-unknown-linux-musl"@.len() == 23 && "x86_64-pc-windows-msvc"@.len() == 22);
    assert("i686-unknown-linux-musl"@ != "x86_64-pc-windows-msvc"@);
    reveal_strlit("i686-unknown-linux-gnu");
    assert("i686-unknown-linux-musl"@.len() == 23 && "i686-unknown-linux-gnu"@.len() == 22);
    assert("i686-unknown-linux-musl"@ != "i686-unknown-linux-gnu"@);
}

proof fn lemma_table_row_6()
    ensures
        spec_ldc2_triple("i686-pc-windows-msvc"@) == Some("i686-windows-msvc"@),
{
    reveal_strlit("i686-pc-windows-msvc");
    reveal_strlit("x86_64-unknown-linux-gnu");
    assert("i686-pc-windows-msvc"@.len() == 20 && "x86_64-unknown-linux-gnu"@.len() == 24);
    assert("i686-pc-windows-msvc"@ != "x86_64-unknown-linux-gnu"@);
    reveal_strlit("x86_64-unknown-linux-musl");
    assert("i686-pc-windows-msvc"@.len() == 20 && "x86_64-unknown-linux-musl"@.len() == 25);
    assert("i686-pc-windows-msvc"@ != "x86_64-unknown-linux-musl"@);
    reveal_strlit("x86_64-apple-darwin");
    assert("i686-pc-windows-msvc"@.len() == 20 && "x86_64-apple-darwin"@.len() == 19);
    assert("i686-pc-windows-msvc"@ != "x86_64-apple-darwin"@);
    reveal_strlit("x86_64-pc-windows-msvc");
    assert("i686-pc-windows-msvc"@.len() == 20 && "x86_64-pc-windows-msvc"@.len() == 22);
    assert("i686-pc-windows-msvc"@ != "x86_64-pc-windows-msvc"@);
    reveal_strlit("i686-unknown-linux-gnu");
    assert("i686-pc-windows-msvc"@.len() == 20 && "i686-unknown-linux-gnu"@.len() == 22);
    assert("i686-pc-windows-msvc"@ != "i686-unknown-linux-gnu"@);
    reveal_strlit("i686-unknown-linux-musl");
    assert("i686-pc-windows-msvc"@.len() == 20 && "i686-unknown-linux-musl"@.len() == 23);
    assert("i686-pc-windows-msvc"@ != "i686-unknown-linux-musl"@);
}

proof fn lemma_table_row_7()
    ensures
        spec_ldc2_triple("arm-unknown-linux-gnueabihf"@) == Some("armv6-linux-gnueabihf"@),
{
    reveal_strlit("arm-unknown-linux-gnueabihf");
    reveal_strlit("x86_64-unknown-linux-gnu");
    assert("arm-unknown-linux-gnueabihf"@.len() == 27 && "x86_64-unknown-linux-gnu"@.len() == 24);
    assert("arm-unknown-linux-gnueabihf"@ != "x86_64-unknown-linux-gnu"@);
    reveal_strlit("x86_64-unknown-linux-musl");
    assert("arm-unknown-linux-gnueabihf"@.len() == 27 && "x86_64-unknown-linux-musl"@.len() == 25);
    assert("arm-unknown-linux-gnueabihf"@ != "x86_64-unknown-linux-musl"@);
    reveal_strlit("x86_64-apple-darwin");
    assert("arm-unknown-linux-gnueabihf"@.len() == 27 && "x86_64-apple-darwin"@.len() == 19);
    assert("arm-unknown-linux-gnueabihf"@ != "x86_64-apple-darwin"@);
    reveal_strlit("x86_64-pc-windows-msvc");
    assert("arm-unknown-linux-gnueabihf"@.len() == 27 && "x86_64-pc-windows-msvc"@.len() == 22);
    assert("arm-unknown-linux-gnueabihf"@ != "x86_64-pc-windows-msvc"@);
    reveal_strlit("i686-unknown-linux-gnu");
    assert("arm-unknown-linux-gnueabihf"@.len() == 27 && "i686-unknown-linux-gnu"@.len() == 22);
    assert("arm-unknown-linux-gnueabihf"@ != "i686-unknown-linux-gnu"@);
    reveal_strlit("i686-unknown-linux-musl");
    assert("arm-unknown-linux-gnueabihf"@.len() == 27 && "i686-unknown-linux-musl"@.len() == 23);
    assert("arm-unknown-linux-gnueabihf"@ != "i686-unknown-linux-musl"@);
    reveal_strlit("i686-pc-windows-msvc");
    assert("arm-unknown-linux-gnueabihf"@.len() == 27 && "i686-pc-windows-msvc"@.len() == 20);
    assert("arm-unknown-linux-gnueabihf"@ != "i686-pc-windows-msvc"@);
}

proof fn lemma_table_row_8()
    ensures
        spec_ldc2_triple("armv7-linux-androideabi"@) == Some("armv7a-unknown-linux-androideabi"@),
{
    reveal_strlit("armv7-linux-androideabi");
    reveal_strlit("x86_64-unknown-linux-gnu");
    assert("armv7-linux-androideabi"@.len() == 23 && "x86_64-unknown-linux-gnu"@.len() == 24);
    assert("armv7-linux-androideabi"@ != "x86_64-unknown-linux-gnu"@);
    reveal_strlit("x86_64-unknown-linux-musl");
    assert("armv7-linux-androideabi"@.len() == 23 && "x86_64-unknown-linux-musl"@.len() == 25);
    assert("armv7-linux-androideabi"@ != "x86_64-unknown-linux-musl"@);
    reveal_strlit("x86_64-apple-darwin");
    assert("armv7-linux-androideabi"@.len() == 23 && "x86_64-apple-darwin"@.len() == 19);
    assert("armv7-linux-androideabi"@ != "x86_64-apple-darwin"@);
    reveal_strlit("x86_64-pc-windows-msvc");
    assert("armv7-linux-androideabi"@.len() == 23 && "x86_64-pc-windows-msvc"@.len() == 22);
    assert("armv7-linux-androideabi"@ != "x86_64-pc-windows-msvc"@);
    reveal_strlit("i686-unknown-linux-gnu");
    assert("armv7-linux-androideabi"@.len() == 23 && "i686-unknown-linux-gnu"@.len() == 22);
    assert("armv7-linux-androideabi"@ != "i686-unknown-linux-gnu"@);
    reveal_strlit("i686-unknown-linux-musl");
    assert("armv7-linux-androideabi"@[0] != "i686-unknown-linux-musl"@[0]);
    assert("armv7-linux-androideabi"@.len() == 23 && "i686-unknown-linux-musl"@.len() == 23);
    assert("armv7-linux-androideabi"@ != "i686-unknown-linux-musl"@);
    reveal_strlit("i686-pc-windows-msvc");
    assert("armv7-linux-androideabi"@.len() == 23 && "i686-pc-windows-msvc"@.len() == 20);
    assert("armv7-linux-androideabi"@ != "i686-pc-windows-msvc"@);
    reveal_strlit("arm-unknown-linux-gnueabihf");
    assert("armv7-linux-androideabi"@.len() == 23 && "arm-unknown-linux-gnueabihf"@.len() == 27);
    assert("armv7-linux-androideabi"@ != "arm-unknown-linux-gnueabihf"@);
}

proof fn lemma_table_row_9()
    ensures
        spec_ldc2_triple("aarch64-linux-android"@) == Some("aarch64-linux-android"@),
{
    reveal_strlit("aarch64-linux-android");
    reveal_strlit("x86_64-unknown-linux-gnu");
    assert("aarch64-linux-android"@.len() == 21 && "x86_64-unknown-linux-gnu"@.len() == 24);
    assert("aarch64-linux-android"@ != "x86_64-unknown-linux-gnu"@);
    reveal_strlit("x86_64-unknown-linux-musl");
    assert("aarch64-linux-android"@.len() == 21 && "x86_64-unknown-linux-musl"@.len() == 25);
    assert("aarch64-linux-android"@ != "x86_64-unknown-linux-musl"@);
    reveal_strlit("x86_64-apple-darwin");
    assert("aarch64-linux-android"@.len() == 21 && "x86_64-apple-darwin"@.len() == 19);
    assert("aarch64-linux-android"@ != "x86_64-apple-darwin"@);
    reveal_strlit("x86_64-pc-windows-msvc");
    assert("aarch64-linux-android"@.len() == 21 && "x86_64-pc-windows-msvc"@.len() == 22);
    assert("aarch64-linux-android"@ != "x86_64-pc-windows-msvc"@);
    reveal_strlit("i686-unknown-linux-gnu");
    assert("aarch64-linux-android"@.len() == 21 && "i686-unknown-linux-gnu"@.len() == 22);
    assert("aarch64-linux-android"@ != "i686-unknown-linux-gnu"@);
    reveal_strlit("i686-unknown-linux-musl");
    assert("aarch64-linux-android"@.len() == 21 && "i686-unknown-linux-musl"@.len() == 23);
    assert("aarch64-linux-android"@ != "i686-unknown-linux-musl"@);
    reveal_strlit("i686-pc-windows-msvc");
    assert("aarch64-linux-android"@.len() == 21 && "i686-pc-windows-msvc"@.len() == 20);
    assert("aarch64-linux-android"@ != "i686-pc-windows-msvc"@);
    reveal_strlit("arm-unknown-linux-gnueabihf");
    assert("aarch64-linux-android"@.len() == 21 && "arm-unknown-linux-gnueabihf"@.len() == 27);
    assert("aarch64-linux-android"@ != "arm-unknown-linux-gnueabihf"@);
    reveal_strlit("armv7-linux-androideabi");
    assert("aarch64-linux-android"@.len() == 21 && "armv7-linux-androideabi"@.len() == 23);
    assert("aarch64-linux-android"@ != "armv7-linux-androideabi"@);
}

proof fn lemma_table_row_10()
    ensures
        spec_ldc2_triple("aarch64-unknown-linux-gnu"@) == Some("aarch64-linux-gnu"@),
{
    reveal_strlit("aarch64-unknown-linux-gnu");
    reveal_strlit("x86_64-unknown-linux-gnu");
    assert("aarch64-unknown-linux-gnu"@.len() == 25 && "x86_64-unknown-linux-gnu"@.len() == 24);
    assert("aarch64-unknown-linux-gnu"@ != "x86_64-unknown-linux-gnu"@);
    reveal_strlit("x86_64-unknown-linux-musl");
    assert("aarch64-unknown-linux-gnu"@[0] != "x86_64-unknown-linux-musl"@[0]);
    assert("aarch64-unknown-linux-gnu"@.len() == 25 && "x86_64-unknown-linux-musl"@.len() == 25);
    assert("aarch64-unknown-linux-gnu"@ != "x86_64-unknown-linux-musl"@);
    reveal_strlit("x86_64-apple-darwin");
    assert("aarch64-unknown-linux-gnu"@.len() == 25 && "x86_64-apple-darwin"@.len() == 19);
    assert("aarch64-unknown-linux-gnu"@ != "x86_64-apple-darwin"@);
    reveal_strlit("x86_64-pc-windows-msvc");
    assert("aarch64-unknown-linux-gnu"@.len() == 25 && "x86_64-pc-windows-msvc"@.len() == 22);
    assert("aarch64-unknown-linux-gnu"@ != "x86_64-pc-windows-msvc"@);
    reveal_strlit("i686-unknown-linux-gnu");
    assert("aarch64-unknown-linux-gnu"@.len() == 25 && "i686-unknown-linux-gnu"@.len() == 22);
    assert("aarch64-unknown-linux-gnu"@ != "i686-unknown-linux-gnu"@);
    reveal_strlit("i686-unknown-linux-musl");
    assert("aarch64-unknown-linux-gnu"@.len() == 25 && "i686-unknown-linux-musl"@.len() == 23);
    assert("aarch64-unknown-linux-gnu"@ != "i686-unknown-linux-musl"@);
    reveal_strlit("i686-pc-windows-msvc");
    assert("aarch64-unknown-linux-gnu"@.len() == 25 && "i686-pc-windows-msvc"@.len() == 20);
    assert("aarch64-unknown-linux-gnu"@ != "i686-pc-windows-msvc"@);
    reveal_strlit("arm-unknown-linux-gnueabihf");
    assert("aarch64-unknown-linux-gnu"@.len() == 25 && "arm-unknown-linux-gnueabihf"@.len() == 27);
    assert("aarch64-unknown-linux-gnu"@ != "arm-unknown-linux-gnueabihf"@);
    reveal_strlit("armv7-linux-androideabi");
    assert("aarch64-unknown-linux-gnu"@.len() == 25 && "armv7-linux-androideabi"@.len() == 23);
    assert("aarch64-unknown-linux-gnu"@ != "armv7-linux-androideabi"@);
    reveal_strlit("aarch64-linux-android");
    assert("aarch64-unknown-linux-gnu"@.len() == 25 && "aarch64-linux-android"@.len() == 21);
    assert("aarch64-unknown-linux-gnu"@ != "aarch64-linux-android"@);
}

proof fn lemma_table_row_11()
    ensures
        spec_ldc2_triple("aarch64-apple-darwin"@) == Some("arm64-apple-macos11.0"@),
{
    reveal_strlit("aarch64-apple-darwin");
    reveal_strlit("x86_64-unknown-linux-gnu");
    assert("aarch64-apple-darwin"@.len() == 20 && "x86_64-unknown-linux-gnu"@.len() == 24);
    assert("aarch64-apple-darwin"@ != "x86_64-unknown-linux-gnu"@);
    reveal_strlit("x86_64-unknown-linux-musl");
    assert("aarch64-apple-darwin"@.len() == 20 && "x86_64-unknown-linux-musl"@.len() == 25);
    assert("aarch64-apple-darwin"@ != "x86_64-unknown-linux-musl"@);
    reveal_strlit("x86_64-apple-darwin");
    assert("aarch64-apple-darwin"@.len() == 20 && "x86_64-apple-darwin"@.len() == 19);
    assert("aarch64-apple-darwin"@ != "x86_64-apple-darwin"@);
    reveal_strlit("x86_64-pc-windows-msvc");
    assert("aarch64-apple-darwin"@.len() == 20 && "x86_64-pc-windows-msvc"@.len() == 22);
    assert("aarch64-apple-darwin"@ != "x86_64-pc-windows-msvc"@);
    reveal_strlit("i686-unknown-linux-gnu");
    assert("aarch64-apple-darwin"@.len() == 20 && "i686-unknown-linux-gnu"@.len() == 22);
    assert("aarch64-apple-darwin"@ != "i686-unknown-linux-gnu"@);
    reveal_strlit("i686-unknown-linux-musl");
    assert("aarch64-apple-darwin"@.len() == 20 && "i686-unknown-linux-musl"@.len() == 23);
    assert("aarch64-apple-darwin"@ != "i686-unknown-linux-musl"@);
    reveal_strlit("i686-pc-windows-msvc");
    assert("aarch64-apple-darwin"@[0] != "i686-pc-windows-msvc"@[0]);
    assert("aarch64-apple-darwin"@.len() == 20 && "i686-pc-windows-msvc"@.len() == 20);
    assert("aarch64-apple-darwin"@ != "i686-pc-windows-msvc"@);
    reveal_strlit("arm-unknown-linux-gnueabihf");
    assert("aarch64-apple-darwin"@.len() == 20 && "arm-unknown-linux-gnueabihf"@.len() == 27);
    assert("aarch64-apple-darwin"@ != "arm-unknown-linux-gnueabihf"@);
    reveal_strlit("armv7-linux-androideabi");
    assert("aarch64-apple-darwin"@.len() == 20 && "armv7-linux-androideabi"@.len() == 23);
    assert("aarch64-apple-darwin"@ != "armv7-linux-androideabi"@);
    reveal_strlit("aarch64-linux-android");
    assert("aarch64-apple-darwin"@.len() == 20 && "aarch64-linux-android"@.len() == 21);
    assert("aarch64-apple-darwin"@ != "aarch64-linux-android"@);
    reveal_strlit("aarch64-unknown-linux-gnu");
    assert("aarch64-apple-darwin"@.len() == 20 && "aarch64-unknown-linux-gnu"@.len() == 25);
    assert("aarch64-apple-darwin"@ != "aarch64-unknown-linux-gnu"@);
}

proof fn lemma_table_row_12()
    ensures
        spec_ldc2_triple("aarch64-apple-ios"@) == Some("arm64-apple-ios12.0"@),
{
    reveal_strlit("aarch64-apple-ios");
    reveal_strlit("x86_64-unknown-linux-gnu");
    assert("aarch64-apple-ios"@.len() == 17 && "x86_64-unknown-linux-gnu"@.len() == 24);
    assert("aarch64-apple-ios"@ != "x86_64-unknown-linux-gnu"@);
    reveal_strlit("x86_64-unknown-linux-musl");
    assert("aarch64-apple-ios"@.len() == 17 && "x86_64-unknown-linux-musl"@.len() == 25);
    assert("aarch64-apple-ios"@ != "x86_64-unknown-linux-musl"@);
    reveal_strlit("x86_64-apple-darwin");
    assert("aarch64-apple-ios"@.len() == 17 && "x86_64-apple-darwin"@.len() == 19);
    assert("aarch64-apple-ios"@ != "x86_64-apple-darwin"@);
    reveal_strlit("x86_64-pc-windows-msvc");
    assert("aarch64-apple-ios"@.len() == 17 && "x86_64-pc-windows-msvc"@.len() == 22);
    assert("aarch64-apple-ios"@ != "x86_64-pc-windows-msvc"@);
    reveal_strlit("i686-unknown-linux-gnu");
    assert("aarch64-apple-ios"@.len() == 17 && "i686-unknown-linux-gnu"@.len() == 22);
    assert("aarch64-apple-ios"@ != "i686-unknown-linux-gnu"@);
    reveal_strlit("i686-unknown-linux-musl");
    assert("aarch64-apple-ios"@.len() == 17 && "i686-unknown-linux-musl"@.len() == 23);
    assert("aarch64-apple-ios"@ != "i686-unknown-linux-musl"@);
    reveal_strlit("i686-pc-windows-msvc");
    assert("aarch64-apple-ios"@.len() == 17 && "i686-pc-windows-msvc"@.len() == 20);
    assert("aarch64-apple-ios"@ != "i686-pc-windows-msvc"@);
    reveal_strlit("arm-unknown-linux-gnueabihf");
    assert("aarch64-apple-ios"@.len() == 17 && "arm-unknown-linux-gnueabihf"@.len() == 27);
    assert("aarch64-apple-ios"@ != "arm-unknown-linux-gnueabihf"@);
    reveal_strlit("armv7-linux-androideabi");
    assert("aarch64-apple-ios"@.len() == 17 && "armv7-linux-androideabi"@.len() == 23);
    assert("aarch64-apple-ios"@ != "armv7-linux-androideabi"@);
    reveal_strlit("aarch64-linux-android");
    assert("aarch64-apple-ios"@.len() == 17 && "aarch64-linux-android"@.len() == 21);
    assert("aarch64-apple-ios"@ != "aarch64-linux-android"@);
    reveal_strlit("aarch64-unknown-linux-gnu");
    assert("aarch64-apple-ios"@.len() == 17 && "aarch64-unknown-linux-gnu"@.len() == 25);
    assert("aarch64-apple-ios"@ != "aarch64-unknown-linux-gnu"@);
    reveal_strlit("aarch64-apple-darwin");
    assert("aarch64-apple-ios"@.len() == 17 && "aarch64-apple-darwin"@.len() == 20);
    assert("aarch64-apple-ios"@ != "aarch64-apple-darwin"@);
}

proof fn lemma_table_row_13()
    ensures
        spec_ldc2_triple("wasm32-unknown-unknown"@) == Some("wasm32-unknown-unknown-webassembly"@),
{
    reveal_strlit("wasm32-unknown-unknown");
    reveal_strlit("x86_64-unknown-linux-gnu");
    assert("wasm32-unknown-unknown"@.len() == 22 && "x86_64-unknown-linux-gnu"@.len() == 24);
    assert("wasm32-unknown-unknown"@ != "x86_64-unknown-linux-gnu"@);
    reveal_strlit("x86_64-unknown-linux-musl");
    assert("wasm32-unknown-unknown"@.len() == 22 && "x86_64-unknown-linux-musl"@.len() == 25);
    assert("wasm32-unknown-unknown"@ != "x86_64-unknown-linux-musl"@);
    reveal_strlit("x86_64-apple-darwin");
    assert("wasm32-unknown-unknown"@.len() == 22 && "x86_64-apple-darwin"@.len() == 19);
    assert("wasm32-unknown-unknown"@ != "x86_64-apple-darwin"@);
    reveal_strlit("x86_64-pc-windows-msvc");
    assert("wasm32-unknown-unknown"@[0] != "x86_64-pc-windows-msvc"@[0]);
    assert("wasm32-unknown-unknown"@.len() == 22 && "x86_64-pc-windows-msvc"@.len() == 22);
    assert("wasm32-unknown-unknown"@ != "x86_64-pc-windows-msvc"@);
    reveal_strlit("i686-unknown-linux-gnu");
    assert("wasm32-unknown-unknown"@[0] != "i686-unknown-linux-gnu"@[0]);
    assert("wasm32-unknown-unknown"@.len() == 22 && "i686-unknown-linux-gnu"@.len() == 22);
    assert("wasm32-unknown-unknown"@ != "i686-unknown-linux-gnu"@);
    reveal_strlit("i686-unknown-linux-musl");
    assert("wasm32-unknown-unknown"@.len() == 22 && "i686-unknown-linux-musl"@.len() == 23);
    assert("wasm32-unknown-unknown"@ != "i686-unknown-linux-musl"@);
    reveal_strlit("i686-pc-windows-msvc");
    assert("wasm32-unknown-unknown"@.len() == 22 && "i686-pc-windows-msvc"@.len() == 20);
    assert("wasm32-unknown-unknown"@ != "i686-pc-windows-msvc"@);
    reveal_strlit("arm-unknown-linux-gnueabihf");
    assert("wasm32-unknown-unknown"@.len() == 22 && "arm-unknown-linux-gnueabihf"@.len() == 27);
    assert("wasm32-unknown-unknown"@ != "arm-unknown-linux-gnueabihf"@);
    reveal_strlit("armv7-linux-androideabi");
    assert("wasm32-unknown-unknown"@.len() == 22 && "armv7-linux-androideabi"@.len() == 23);
    assert("wasm32-unknown-unknown"@ != "armv7-linux-androideabi"@);
    reveal_strlit("aarch64-linux-android");
    assert("wasm32-unknown-unknown"@.len() == 22 && "aarch64-linux-android"@.len() == 21);
    assert("wasm32-unknown-unknown"@ != "aarch64-linux-android"@);
    reveal_strlit("aarch64-unknown-linux-gnu");
    assert("wasm32-unknown-unknown"@.len() == 22 && "aarch64-unknown-linux-gnu"@.len() == 25);
    assert("wasm32-unknown-unknown"@ != "aarch64-unknown-linux-gnu"@);
    reveal_strlit("aarch64-apple-darwin");
    assert("wasm32-unknown-unknown"@.len() == 22 && "aarch64-apple-darwin"@.len() == 20);
    assert("wasm32-unknown-unknown"@ != "aarch64-apple-darwin"@);
    reveal_strlit("aarch64-apple-ios");
    assert("wasm32-unknown-unknown"@.len() == 22 && "aarch64-apple-ios"@.len() == 17);
    assert("wasm32-unknown-unknown"@ != "aarch64-apple-ios"@);
}

/// The Rust-to-LDC2 triple table, entry by entry: each target keeps its
/// architecture and C library (`x86_64-unknown-linux-musl` is built for
/// `x86_64-linux-musl`, not for glibc), and Apple targets carry their
/// minimum system version.
pub proof fn lemma_triple_table_entries()
    ensures
        spec_ldc2_triple("x86_64-unknown-linux-gnu"@) == Some("x86_64-linux-gnu"@),
        spec_ldc2_triple("x86_64-unknown-linux-musl"@) == Some("x86_64-linux-musl"@),
        spec_ldc2_triple("x86_64-apple-darwin"@) == Some("x86_64-apple-macos10.12"@),
        spec_ldc2_triple("x86_64-pc-windows-msvc"@) == Some("x86_64-windows-msvc"@),
        spec_ldc2_triple("i686-unknown-linux-gnu"@) == Some("i686-linux-gnu"@),
        spec_ldc2_triple("i686-unknown-linux-musl"@) == Some("i686-linux-musl"@),
        spec_ldc2_triple("i686-pc-windows-msvc"@) == Some("i686-windows-msvc"@),
        spec_ldc2_triple("arm-unknown-linux-gnueabihf"@) == Some("armv6-linux-gnueabihf"@),
        spec_ldc2_triple("armv7-linux-androideabi"@) == Some("armv7a-unknown-linux-androideabi"@),
        spec_ldc2_triple("aarch64-linux-android"@) == Some("aarch64-linux-android"@),
        spec_ldc2_triple("aarch64-unknown-linux-gnu"@) == Some("aarch64-linux-gnu"@),
        spec_ldc2_triple("aarch64-apple-darwin"@) == Some("arm64-apple-macos11.0"@),
        spec_ldc2_triple("aarch64-apple-ios"@) == Some("arm64-apple-ios12.0"@),
        spec_ldc2_triple("wasm32-unknown-unknown"@) == Some("wasm32-unknown-unknown-webassembly"@),
{
    lemma_table_row_0();
    lemma_table_row_1();
    lemma_table_row_2();
    lemma_table_row_3();
    lemma_table_row_4();
    lemma_table_row_5();
    lemma_table_row_6();
    lemma_table_row_7();
    lemma_table_row_8();
    lemma_table_row_9();
    lemma_table_row_10();
    lemma_table_row_11();
    lemma_table_row_12();
    lemma_table_row_13();
}

} // verus!
