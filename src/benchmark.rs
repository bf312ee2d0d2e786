use vstd::prelude::*;
use vstd::string::*;
use crate::command::{push_all, strs, CommandView, Invocation};
use crate::config::Config;
use crate::error::Error;
use crate::lang::{
    compile_cmd_spec, lemma_ext_round_trip, lemma_from_ext_exact, run_cmd_spec, BenchmarkLanguage,
    CONFIG_EXT,
};
use crate::paths::{bin_root, bin_root_spec, Arch, MOON_WORKSPACE, RAW_PATH, SUITE_PATH};
use crate::plan::{steps_view, Step, StepView};
use crate::text::{decimal, decimal_string, extension, extension_of, join, join_spec, str_eq};

verus! {

/// What can be read of the extension of a directory entry whose name is not text.
pub enum ExtStatus {
    /// The name has no extension.
    Missing,
    /// The extension, which is text.
    Text(String),
    /// The extension is not text either.
    NotText,
}

/// The name of a directory entry.
pub enum FileName {
    /// A name that is text.
    Text(String),
    /// A name that is not text, and what can be read of its extension.
    NotText(ExtStatus),
}

/// The extension of the entry `f`: `None` where it is not text, `Some(None)`
/// where there is none.
pub open spec fn ext_view(f: FileName) -> Option<Option<Seq<char>>> {
    match f {
        FileName::Text(n) => Some(extension_of(n@)),
        FileName::NotText(ExtStatus::Missing) => Some(None),
        FileName::NotText(ExtStatus::Text(e)) => Some(Some(e@)),
        FileName::NotText(ExtStatus::NotText) => None,
    }
}

/// The language whose source file the entry `f` is: its extension is text, is
/// a language's, and is not that of the configuration file.
pub open spec fn gives_spec(f: FileName) -> Option<BenchmarkLanguage> {
    match ext_view(f) {
        Some(Some(e)) => if e != CONFIG_EXT@ {
            BenchmarkLanguage::from_ext_spec(e)
        } else {
            None
        },
        _ => None,
    }
}

/// Whether the directory entry `f` is a source file of the language `l`.
pub open spec fn file_gives(f: FileName, l: BenchmarkLanguage) -> bool {
    gives_spec(f) == Some(l)
}

/// Whether the listing `files` holds a source file of `l`.
pub open spec fn listed(files: Seq<FileName>, l: BenchmarkLanguage) -> bool {
    exists|i: int| 0 <= i < files.len() && #[trigger] file_gives(files[i], l)
}

/// Whether the extension of every entry of the listing, where it has one, is text.
pub open spec fn exts_readable(files: Seq<FileName>) -> bool {
    forall|i: int| 0 <= i < files.len() ==> (#[trigger] ext_view(files[i])) is Some
}

/// The languages of the listing `files` without those of `exclude`, each once,
/// in the order of the first entry that gives it.
pub open spec fn discovered(files: Seq<FileName>, exclude: Seq<BenchmarkLanguage>) -> Seq<
    BenchmarkLanguage,
>
    decreases files.len(),
{
    if files.len() == 0 {
        seq![]
    } else {
        let r = discovered(files.drop_last(), exclude);
        match gives_spec(files.last()) {
            Some(l) => if !exclude.contains(l) && !r.contains(l) {
                r.push(l)
            } else {
                r
            },
            None => r,
        }
    }
}

/// The extension of the entry `f`, as `ext_view` gives it.
pub fn file_ext(f: &FileName) -> (r: Option<Option<&str>>)
    ensures
        match r {
            None => ext_view(*f) is None,
            Some(None) => ext_view(*f) == Some(None::<Seq<char>>),
            Some(Some(e)) => ext_view(*f) == Some(Some(e@)),
        },
{
    match f {
        FileName::Text(n) => Some(extension(n.as_str())),
        FileName::NotText(ExtStatus::Missing) => Some(None),
        FileName::NotText(ExtStatus::Text(e)) => Some(Some(e.as_str())),
        FileName::NotText(ExtStatus::NotText) => None,
    }
}

/// The directory of the benchmark `name`.
pub open spec fn base_path_spec(name: Seq<char>) -> Seq<char> {
    join_spec(SUITE_PATH@, name)
}

/// The source file of `lang` for the benchmark `name` in the directory `base`.
pub open spec fn source_path_spec(base: Seq<char>, name: Seq<char>, lang: BenchmarkLanguage) -> Seq<char> {
    join_spec(base, name + "."@ + lang.ext_spec())
}

/// The name of the binary of `lang` for the benchmark `name`.
pub open spec fn bin_name_spec(name: Seq<char>, lang: BenchmarkLanguage) -> Seq<char> {
    if lang == BenchmarkLanguage::Scc {
        name
    } else {
        name + "_"@ + lang.suffix_spec()
    }
}

/// Where the binary of `lang` for the benchmark `name` is put on `arch`.
pub open spec fn bin_path_spec(name: Seq<char>, lang: BenchmarkLanguage, arch: Arch) -> Seq<char> {
    if lang == BenchmarkLanguage::Effekt {
        join_spec(join_spec(bin_root_spec(arch), bin_name_spec(name, lang)), name)
    } else {
        join_spec(bin_root_spec(arch), bin_name_spec(name, lang))
    }
}

/// Where the timing record of the benchmark `name` is written.
pub open spec fn result_path_spec(name: Seq<char>) -> Seq<char> {
    join_spec(RAW_PATH@, name + ".csv"@)
}

/// The file that the MoonBit build copies the source to.
pub open spec fn moon_source_spec() -> Seq<char> {
    join_spec(MOON_WORKSPACE@, "working.mbt"@)
}

/// The file that the MoonBit build writes its binary to.
pub open spec fn moon_artifact_spec() -> Seq<char> {
    join_spec(MOON_WORKSPACE@, "target/native/release/build/benchmoon.exe"@)
}

/// The steps that build the binary of `lang` for the benchmark `name`, whose
/// directory is `base`, on `arch`. MoonBit is built inside a scratch workspace,
/// created first, whose binary is then moved into place; Koka's binary is made executable after compiling; every other language
/// is one compiler run.
pub open spec fn compile_plan_spec(
    base: Seq<char>,
    name: Seq<char>,
    lang: BenchmarkLanguage,
    heap_size: Option<u64>,
    arch: Arch,
) -> Seq<StepView> {
    let src = source_path_spec(base, name, lang);
    let bin = bin_path_spec(name, lang, arch);
    if lang == BenchmarkLanguage::MoonBit {
        seq![
            StepView::EnsureDir(MOON_WORKSPACE@),
            StepView::Copy { from: src, to: moon_source_spec() },
            StepView::Exec(
                CommandView {
                    dir: Some(MOON_WORKSPACE@),
                    ..compile_cmd_spec(lang, src, bin, heap_size)
                },
            ),
            StepView::EnsureDir(bin_root_spec(arch)),
            StepView::Rename { from: moon_artifact_spec(), to: bin },
        ]
    } else {
        let built = seq![
            StepView::EnsureDir(bin_root_spec(arch)),
            StepView::Exec(compile_cmd_spec(lang, src, bin, heap_size)),
        ];
        if lang == BenchmarkLanguage::Koka {
            built.push(StepView::MakeExecutable(bin))
        } else {
            built
        }
    }
}

/// The error of a build of `lang` for the benchmark `name` whose step `step`
/// failed, with what the failing program wrote to its two streams.
pub open spec fn step_error_spec(
    e: Error,
    name: Seq<char>,
    lang: BenchmarkLanguage,
    step: StepView,
    out: Seq<char>,
    err: Seq<char>,
) -> bool {
    match step {
        StepView::EnsureDir(p) => e matches Error::FileAccess { path, action, reason } && path@
            == p && action@ == "create directory"@ && reason@ == err,
        StepView::Copy { from, to } => e matches Error::FileAccess { path, action, reason }
            && path@ == to && action@ == "copy mbt file"@ && reason@ == err,
        StepView::Exec(_) => e matches Error::Compile { name: n, lang: l, stdout, stderr } && n@
            == name && l == lang && stdout@ == out && stderr@ == err,
        StepView::Rename { from, to } => e matches Error::FileAccess { path, action, reason }
            && path@ == to && action@ == "move MoonBit binary"@ && reason@ == err,
        StepView::MakeExecutable(p) => e matches Error::PathAccess { path, action } && path@ == p
            && action@ == "Change file permissions"@,
    }
}

/// The invocation that runs the binary of `lang` for the benchmark `name` on
/// `arch`, with the arguments `args` appended in order.
pub open spec fn run_spec(
    name: Seq<char>,
    lang: BenchmarkLanguage,
    arch: Arch,
    args: Seq<Seq<char>>,
) -> CommandView {
    let c = run_cmd_spec(lang, bin_path_spec(name, lang, arch));
    CommandView { args: c.args + args, ..c }
}

/// Each argument preceded by one space.
pub open spec fn spaced(args: Seq<Seq<char>>) -> Seq<char>
    decreases args.len(),
{
    if args.len() == 0 {
        seq![]
    } else {
        spaced(args.drop_last()) + seq![' '] + args.last()
    }
}

/// The shell command line that the timing tool runs for `lang`.
pub open spec fn call_string_spec(
    name: Seq<char>,
    lang: BenchmarkLanguage,
    arch: Arch,
    args: Seq<Seq<char>>,
) -> Seq<char> {
    let bin = bin_path_spec(name, lang, arch);
    let call = if lang == BenchmarkLanguage::SmlNj {
        "sml @SMLload "@ + bin
    } else {
        bin
    };
    call + spaced(args)
}

/// The timing tool's invocation for the benchmark `name`: one command line per
/// language, then the number of runs, three warm-up runs and the record's path.
pub open spec fn hyperfine_spec(
    name: Seq<char>,
    langs: Seq<BenchmarkLanguage>,
    arch: Arch,
    args: Seq<Seq<char>>,
    runs: u64,
) -> CommandView {
    CommandView {
        program: "hyperfine"@,
        args: langs.map_values(|l: BenchmarkLanguage| call_string_spec(name, l, arch, args)) + seq![
            "--runs"@,
            decimal(runs as nat),
            "--warmup"@,
            "3"@,
            "--export-csv"@,
            result_path_spec(name),
        ],
        dir: None,
    }
}

/// A benchmark holds a language exactly where the listing has an entry whose
/// extension is that language's own and the language is not excluded; the
/// configuration file never counts.
pub proof fn lemma_languages_by_extension(
    files: Seq<FileName>,
    exclude: Seq<BenchmarkLanguage>,
    l: BenchmarkLanguage,
)
    ensures
        (listed(files, l) && !exclude.contains(l)) <==> ((exists|i: int|
            0 <= i < files.len() && #[trigger] ext_view(files[i]) == Some(Some(l.ext_spec())))
            && !exclude.contains(l)),
        l.ext_spec() != CONFIG_EXT@,
{
    lemma_ext_round_trip(l);
    if listed(files, l) {
        let i = choose|i: int| 0 <= i < files.len() && #[trigger] file_gives(files[i], l);
        let e = ext_view(files[i])->Some_0->Some_0;
        lemma_from_ext_exact(e);
        assert(ext_view(files[i]) == Some(Some(l.ext_spec())));
    }
    if exists|i: int| 0 <= i < files.len() && #[trigger] ext_view(files[i]) == Some(Some(l.ext_spec())) {
        let i = choose|i: int|
            0 <= i < files.len() && #[trigger] ext_view(files[i]) == Some(Some(l.ext_spec()));
        assert(file_gives(files[i], l));
    }
}

/// A language left out when the benchmark was built is never among its
/// languages, so that building it fails with `UnknownLanguage` whatever files
/// the directory holds.
pub proof fn lemma_excluded_unknown(
    b: Benchmark,
    files: Seq<FileName>,
    exclude: Seq<BenchmarkLanguage>,
    l: BenchmarkLanguage,
)
    requires
        forall|x: BenchmarkLanguage|
            b.languages@.contains(x) <==> (listed(files, x) && !exclude.contains(x)),
        exclude.contains(l),
    ensures
        !b.languages@.contains(l),
{
}

/// Whether the build `plan` writes the file `bin`: a compiler run names it, or a
/// file is moved to it.
pub open spec fn plan_writes(plan: Seq<StepView>, bin: Seq<char>) -> bool {
    exists|i: int|
        0 <= i < plan.len() && match #[trigger] plan[i] {
            StepView::Exec(c) => c.args.contains(bin),
            StepView::Rename { from, to } => to == bin,
            _ => false,
        }
}

/// Every build of a language writes its binary to the one path that the
/// benchmark's name, the language and the architecture give, whatever the heap
/// hint: two builds of the same benchmark and language put it in the same place.
pub proof fn lemma_build_targets_artifact(
    base: Seq<char>,
    name: Seq<char>,
    lang: BenchmarkLanguage,
    heap_size: Option<u64>,
    arch: Arch,
)
    ensures
        plan_writes(
            compile_plan_spec(base, name, lang, heap_size, arch),
            bin_path_spec(name, lang, arch),
        ),
{
    let plan = compile_plan_spec(base, name, lang, heap_size, arch);
    let bin = bin_path_spec(name, lang, arch);
    let src = source_path_spec(base, name, lang);
    if lang == BenchmarkLanguage::MoonBit {
        assert(plan[4] == StepView::Rename { from: moon_artifact_spec(), to: bin });
    } else {
        let c = compile_cmd_spec(lang, src, bin, heap_size);
        assert(plan[1] == StepView::Exec(c));
        match lang {
            BenchmarkLanguage::Scc => assert(c.args[2] == bin),
            BenchmarkLanguage::Rust => assert(c.args[3] == bin),
            BenchmarkLanguage::SmlNj => assert(c.args[2] == bin),
            _ => assert(c.args[2] == bin),
        }
    }
}

/// The binary path is `<root>/<name>_<suffix>` for most languages,
/// `<root>/<name>` for the one without a suffix, and `<root>/<name>_<suffix>/<name>`
/// for the one built into a directory of its own.
pub proof fn lemma_artifact_shapes(name: Seq<char>, lang: BenchmarkLanguage, arch: Arch)
    ensures
        lang == BenchmarkLanguage::Scc ==> bin_path_spec(name, lang, arch) == bin_root_spec(arch)
            + "/"@ + name,
        lang == BenchmarkLanguage::Effekt ==> bin_path_spec(name, lang, arch) == bin_root_spec(
            arch,
        ) + "/"@ + name + "_"@ + lang.suffix_spec() + "/"@ + name,
        lang != BenchmarkLanguage::Scc && lang != BenchmarkLanguage::Effekt ==> bin_path_spec(
            name,
            lang,
            arch,
        ) == bin_root_spec(arch) + "/"@ + name + "_"@ + lang.suffix_spec(),
{
    reveal_strlit("/");
    let root = bin_root_spec(arch);
    let suf = lang.suffix_spec();
    assert(root + seq!['/'] + name =~= root + "/"@ + name);
    assert(root + seq!['/'] + (name + "_"@ + suf) =~= root + "/"@ + name + "_"@ + suf);
    assert(root + seq!['/'] + (name + "_"@ + suf) + seq!['/'] + name =~= root + "/"@ + name + "_"@
        + suf + "/"@ + name);
}

/// A run appends exactly the chosen arguments, in order, after the invocation of
/// the binary; with no arguments it is that invocation alone.
pub proof fn lemma_run_appends(
    name: Seq<char>,
    lang: BenchmarkLanguage,
    arch: Arch,
    args: Seq<Seq<char>>,
)
    ensures
        run_spec(name, lang, arch, args).program == run_cmd_spec(lang, bin_path_spec(name, lang, arch)).program,
        run_spec(name, lang, arch, args).args == run_cmd_spec(lang, bin_path_spec(name, lang, arch)).args + args,
        args.len() == 0 ==> run_spec(name, lang, arch, args) == run_cmd_spec(
            lang,
            bin_path_spec(name, lang, arch),
        ),
{
    let c = run_cmd_spec(lang, bin_path_spec(name, lang, arch));
    if args.len() == 0 {
        assert(c.args + args =~= c.args);
    }
}

/// Whether `l` occurs in `s`.
pub fn contains_lang(s: &[BenchmarkLanguage], l: BenchmarkLanguage) -> (r: bool)
    ensures
        r == s@.contains(l),
{
    let mut i: usize = 0;
    while i < s.len()
        invariant
            i <= s@.len(),
            forall|j: int| 0 <= j < i ==> s@[j] != l,
        decreases s@.len() - i,
    {
        if s[i] == l {
            return true;
        }
        i = i + 1;
    }
    false
}

/// One benchmark problem: its name, its directory, the languages it is written
/// in (without the excluded ones) and its settings.
pub struct Benchmark {
    pub name: String,
    pub base_path: String,
    pub languages: Vec<BenchmarkLanguage>,
    pub config: Config,
}

impl Benchmark {
    /// The directory is the one of the name, and no language occurs twice.
    pub open spec fn wf(&self) -> bool {
        &&& self.base_path@ == base_path_spec(self.name@)
        &&& self.languages@.no_duplicates()
    }

    /// Builds the benchmark `name` from the entries of its directory and its
    /// settings. Its languages are those that have a source file in the listing
    /// and are not excluded, in the order of their first entry; it fails where an
    /// entry's extension is not text.
    pub fn new(
        name: &str,
        exclude_lang: &[BenchmarkLanguage],
        files: &Vec<FileName>,
        config: Config,
    ) -> (r: Result<Benchmark, Error>)
        ensures
            r is Ok <==> exts_readable(files@),
            r matches Ok(b) ==> {
                &&& b.wf()
                &&& b.name@ == name@
                &&& b.config == config
                &&& b.languages@ == discovered(files@, exclude_lang@)
                &&& forall|l: BenchmarkLanguage|
                    b.languages@.contains(l) <==> (listed(files@, l) && !exclude_lang@.contains(l))
            },
            r matches Err(e) ==> e.path_access_at(base_path_spec(name@)),
    {
        let base_path = join(SUITE_PATH, name);
        let mut languages: Vec<BenchmarkLanguage> = Vec::new();
        let mut i: usize = 0;
        while i < files.len()
            invariant
                i <= files@.len(),
                base_path@ == base_path_spec(name@),
                languages@.no_duplicates(),
                languages@ == discovered(files@.take(i as int), exclude_lang@),
                forall|j: int| 0 <= j < i ==> (#[trigger] ext_view(files@[j])) is Some,
                forall|l: BenchmarkLanguage|
                    languages@.contains(l) <==> ((exists|j: int|
                        0 <= j < i && #[trigger] file_gives(files@[j], l))
                        && !exclude_lang@.contains(l)),
            decreases files@.len() - i,
        {
            let ghost prev = languages@;
            assert(files@.take(i + 1).drop_last() =~= files@.take(i as int));
            assert(files@.take(i + 1).last() == files@[i as int]);
            let ext = match file_ext(&files[i]) {
                None => {
                    return Err(
                        Error::PathAccess {
                            path: base_path,
                            action: String::from_str("Get File Extension (as string)"),
                        },
                    );
                },
                Some(e) => e,
            };
            let gives = match ext {
                Some(e) => if !str_eq(e, CONFIG_EXT) {
                    BenchmarkLanguage::from_ext(e)
                } else {
                    None
                },
                None => None,
            };
            assert(gives == gives_spec(files@[i as int]));
            if let Some(lang) = gives {
                if !contains_lang(exclude_lang, lang) && !contains_lang(languages.as_slice(), lang) {
                    languages.push(lang);
                    assert(languages@ == prev.push(lang));
                    assert forall|l: BenchmarkLanguage|
                        languages@.contains(l) <==> (prev.contains(l) || l == lang) by {
                        if prev.contains(l) {
                            let k = choose|k: int| 0 <= k < prev.len() && prev[k] == l;
                            assert(languages@[k] == l);
                        }
                        if l == lang {
                            assert(languages@[prev.len() as int] == l);
                        }
                        if languages@.contains(l) {
                            let k = choose|k: int| 0 <= k < languages@.len() && languages@[k] == l;
                            if k < prev.len() {
                                assert(prev[k] == l);
                            }
                        }
                    }
                }
            }
            assert forall|l: BenchmarkLanguage|
                languages@.contains(l) <==> ((exists|j: int|
                    0 <= j < i + 1 && #[trigger] file_gives(files@[j], l))
                    && !exclude_lang@.contains(l)) by {
                if !file_gives(files@[i as int], l) {
                    assert(languages@.contains(l) <==> prev.contains(l));
                    if exists|j: int| 0 <= j < i + 1 && #[trigger] file_gives(files@[j], l) {
                        let j = choose|j: int| 0 <= j < i + 1 && #[trigger] file_gives(files@[j], l);
                        assert(j < i);
                    }
                }
            }
            i = i + 1;
        }
        assert(files@.take(files@.len() as int) =~= files@);
        Ok(Benchmark { name: String::from_str(name), base_path, languages, config })
    }

    /// The source file of `lang`.
    pub fn source_path(&self, lang: BenchmarkLanguage) -> (r: String)
        ensures
            r@ == source_path_spec(self.base_path@, self.name@, lang),
    {
        let file = String::from_str(self.name.as_str()).concat(".").concat(lang.ext());
        proof {
            reveal_strlit(".");
        }
        join(self.base_path.as_str(), file.as_str())
    }

    /// Where the binary of `lang` is put on `arch`.
    pub fn bin_path(&self, lang: BenchmarkLanguage, arch: Arch) -> (r: String)
        ensures
            r@ == bin_path_spec(self.name@, lang, arch),
    {
        let mut bin_name = String::from_str(self.name.as_str());
        if lang != BenchmarkLanguage::Scc {
            bin_name = bin_name.concat("_").concat(lang.suffix());
        }
        proof {
            reveal_strlit("_");
        }
        let dir = join(bin_root(arch), bin_name.as_str());
        if lang == BenchmarkLanguage::Effekt {
            join(dir.as_str(), self.name.as_str())
        } else {
            dir
        }
    }

    /// Where the timing record of this benchmark is written.
    pub fn result_path(&self) -> (r: String)
        ensures
            r@ == result_path_spec(self.name@),
    {
        let file = String::from_str(self.name.as_str()).concat(".csv");
        proof {
            reveal_strlit(".csv");
        }
        join(RAW_PATH, file.as_str())
    }

    /// Whether the timing record exists, given why its directory could not be
    /// created (`None` where it could) and whether the file is there.
    pub fn results_exist(&self, dir_failure: Option<String>, file_present: bool) -> (r: Result<
        bool,
        Error,
    >)
        ensures
            dir_failure is None ==> r == Ok::<bool, Error>(file_present),
            dir_failure matches Some(m) ==> (r matches Err(e) && e matches Error::FileAccess {
                path,
                action,
                reason,
            } && path@ == RAW_PATH@ && action@ == "create directory"@ && reason@ == m@),
    {
        match dir_failure {
            Some(m) => Err(
                Error::FileAccess {
                    path: String::from_str(RAW_PATH),
                    action: String::from_str("create directory"),
                    reason: m,
                },
            ),
            None => Ok(file_present),
        }
    }

    /// The steps that build the binary of `lang` on `arch`; fails with
    /// `UnknownLanguage` where `lang` is not among the benchmark's languages.
    pub fn compile(&self, lang: BenchmarkLanguage, arch: Arch) -> (r: Result<Vec<Step>, Error>)
        ensures
            r is Ok <==> self.languages@.contains(lang),
            r matches Ok(steps) ==> steps_view(steps@) == compile_plan_spec(
                self.base_path@,
                self.name@,
                lang,
                self.config.heap_size,
                arch,
            ),
            r matches Err(e) ==> (e matches Error::UnknownLanguage { action, lang: l } && l
                == lang && action@ == "Compiling"@),
    {
        if !contains_lang(self.languages.as_slice(), lang) {
            return Err(
                Error::UnknownLanguage { action: String::from_str("Compiling"), lang },
            );
        }
        let src = self.source_path(lang);
        let bin = self.bin_path(lang, arch);
        let mut steps: Vec<Step> = Vec::new();
        if lang == BenchmarkLanguage::MoonBit {
            let mut build = lang.compile_cmd(src.as_str(), bin.as_str(), self.config.heap_size);
            build.dir = Some(String::from_str(MOON_WORKSPACE));
            steps.push(Step::EnsureDir(String::from_str(MOON_WORKSPACE)));
            steps.push(Step::Copy { from: src, to: join(MOON_WORKSPACE, "working.mbt") });
            steps.push(Step::Exec(build));
            steps.push(Step::EnsureDir(String::from_str(bin_root(arch))));
            steps.push(
                Step::Rename {
                    from: join(MOON_WORKSPACE, "target/native/release/build/benchmoon.exe"),
                    to: bin,
                },
            );
        } else {
            let build = lang.compile_cmd(src.as_str(), bin.as_str(), self.config.heap_size);
            steps.push(Step::EnsureDir(String::from_str(bin_root(arch))));
            steps.push(Step::Exec(build));
            if lang == BenchmarkLanguage::Koka {
                steps.push(Step::MakeExecutable(bin));
            }
        }
        assert(steps_view(steps@) =~= compile_plan_spec(
            self.base_path@,
            self.name@,
            lang,
            self.config.heap_size,
            arch,
        ));
        Ok(steps)
    }

    /// The error of a build of `lang` whose step `step` failed; `stdout` and
    /// `stderr` are what the failing program wrote, kept as they are.
    pub fn step_failure(
        &self,
        lang: BenchmarkLanguage,
        step: &Step,
        stdout: String,
        stderr: String,
    ) -> (r: Error)
        ensures
            step_error_spec(r, self.name@, lang, step@, stdout@, stderr@),
    {
        match step {
            Step::EnsureDir(p) => Error::FileAccess {
                path: p.clone(),
                action: String::from_str("create directory"),
                reason: stderr,
            },
            Step::Copy { from, to } => Error::FileAccess {
                path: to.clone(),
                action: String::from_str("copy mbt file"),
                reason: stderr,
            },
            Step::Exec(_) => Error::Compile {
                name: self.name.clone(),
                lang,
                stdout,
                stderr,
            },
            Step::Rename { from, to } => Error::FileAccess {
                path: to.clone(),
                action: String::from_str("move MoonBit binary"),
                reason: stderr,
            },
            Step::MakeExecutable(p) => Error::PathAccess {
                path: p.clone(),
                action: String::from_str("Change file permissions"),
            },
        }
    }
    /// The invocation that runs the binary of `lang` on `arch`, without arguments.
    pub fn run_cmd(&self, lang: BenchmarkLanguage, arch: Arch) -> (r: Invocation)
        ensures
            r@ == run_cmd_spec(lang, bin_path_spec(self.name@, lang, arch)),
    {
        let bin = self.bin_path(lang, arch);
        lang.run_cmd(bin.as_str())
    }

    /// The invocation that runs the binary of `lang` on `arch` with the validation
    /// arguments where `test` holds, else with the timed-run arguments.
    pub fn run(&self, lang: BenchmarkLanguage, test: bool, arch: Arch) -> (r: Invocation)
        ensures
            r@ == run_spec(
                self.name@,
                lang,
                arch,
                if test {
                    strs(self.config.test_args@)
                } else {
                    strs(self.config.args@)
                },
            ),
    {
        let mut cmd = self.run_cmd(lang, arch);
        let args = if test {
            &self.config.test_args
        } else {
            &self.config.args
        };
        push_all(&mut cmd.args, args);
        cmd
    }

    /// The outcome of a run of `lang` that exited with success where `exited_ok`
    /// holds: a failing exit status is a `Run` error, whatever the output.
    pub fn run_outcome(&self, lang: BenchmarkLanguage, exited_ok: bool) -> (r: Result<(), Error>)
        ensures
            r is Ok <==> exited_ok,
            r matches Err(e) ==> (e matches Error::Run { name, lang: l, reason } && name@
                == self.name@ && l == lang),
    {
        if exited_ok {
            Ok(())
        } else {
            Err(
                Error::Run {
                    name: self.name.clone(),
                    lang,
                    reason: String::from_str("Command exited with nonzero exit status"),
                },
            )
        }
    }

    /// The invocation of the timing tool over every language of the benchmark,
    /// with the timed-run arguments. Each language is checked to be one of the
    /// benchmark's before its command line is added; the check always passes,
    /// as the languages are taken from the benchmark itself, so the result is
    /// always `Ok`.
    pub fn run_hyperfine_all(&self, arch: Arch) -> (r: Result<Invocation, Error>)
        ensures
            r matches Ok(c) && c@ == hyperfine_spec(
                self.name@,
                self.languages@,
                arch,
                strs(self.config.args@),
                self.config.runs,
            ),
    {
        let mut cmd = Invocation::new("hyperfine");
        let mut i: usize = 0;
        assert(cmd@.args =~= self.languages@.take(0).map_values(
            |l: BenchmarkLanguage| call_string_spec(self.name@, l, arch, strs(self.config.args@)),
        ));
        while i < self.languages.len()
            invariant
                i <= self.languages@.len(),
                cmd@ == (CommandView {
                    program: "hyperfine"@,
                    args: self.languages@.take(i as int).map_values(
                        |l: BenchmarkLanguage|
                            call_string_spec(self.name@, l, arch, strs(self.config.args@)),
                    ),
                    dir: None,
                }),
            decreases self.languages@.len() - i,
        {
            let lang = self.languages[i];
            if !contains_lang(self.languages.as_slice(), lang) {
                return Err(
                    Error::UnknownLanguage { action: String::from_str("Run Hyperfine"), lang },
                );
            }
            let call = self.call_string(lang, arch);
            cmd.arg(call.as_str());
            assert(self.languages@.take(i + 1) =~= self.languages@.take(i as int).push(lang));
            assert(cmd@.args =~= self.languages@.take(i + 1).map_values(
                |l: BenchmarkLanguage| call_string_spec(self.name@, l, arch, strs(self.config.args@)),
            ));
            i = i + 1;
        }
        assert(self.languages@.take(self.languages@.len() as int) =~= self.languages@);
        let runs = decimal_string(self.config.runs);
        let out = self.result_path();
        cmd.arg("--runs");
        cmd.arg(runs.as_str());
        cmd.arg("--warmup");
        cmd.arg("3");
        cmd.arg("--export-csv");
        cmd.arg(out.as_str());
        assert(cmd@.args =~= hyperfine_spec(
            self.name@,
            self.languages@,
            arch,
            strs(self.config.args@),
            self.config.runs,
        ).args);
        Ok(cmd)
    }

    /// The outcome of the timing tool's run, which exited with success where
    /// `exited_ok` holds.
    pub fn hyperfine_outcome(&self, exited_ok: bool) -> (r: Result<(), Error>)
        ensures
            r is Ok <==> exited_ok,
            r matches Err(e) ==> (e matches Error::Hyperfine { name, reason } && name@
                == self.name@),
    {
        if exited_ok {
            Ok(())
        } else {
            Err(
                Error::Hyperfine {
                    name: self.name.clone(),
                    reason: String::from_str("hyperfine exited with nonzero exit status"),
                },
            )
        }
    }

    /// The command line that the timing tool runs for `lang` on `arch`.
    pub fn call_string(&self, lang: BenchmarkLanguage, arch: Arch) -> (r: String)
        ensures
            r@ == call_string_spec(self.name@, lang, arch, strs(self.config.args@)),
    {
        let bin = self.bin_path(lang, arch);
        let mut call = if lang == BenchmarkLanguage::SmlNj {
            String::from_str("sml @SMLload ").concat(bin.as_str())
        } else {
            bin
        };
        let ghost head = call@;
        let args = &self.config.args;
        let mut i: usize = 0;
        while i < args.len()
            invariant
                i <= args@.len(),
                call@ == head + spaced(strs(args@.take(i as int))),
            decreases args@.len() - i,
        {
            call.append(" ");
            call.append(args[i].as_str());
            proof {
                reveal_strlit(" ");
                let t = strs(args@.take(i + 1));
                assert(t.drop_last() =~= strs(args@.take(i as int)));
                assert(t.last() == args@[i as int]@);
            }
            assert(call@ =~= head + spaced(strs(args@.take(i + 1))));
            i = i + 1;
        }
        assert(args@.take(args@.len() as int) =~= args@);
        call
    }
}

} // verus!
