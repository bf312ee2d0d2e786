use vstd::prelude::*;
use vstd::string::*;
use crate::command::{CommandView, Invocation};
use crate::text::{decimal, decimal_string, str_eq};

verus! {

/// One supported toolchain in which a benchmark can be written.
#[derive(Clone, Copy, Debug, PartialEq, Eq, Structural, Hash)]
pub enum BenchmarkLanguage {
    Scc,
    Rust,
    Go,
    Koka,
    Effekt,
    SmlNj,
    MoonBit,
    OCaml,
}

/// Extension of the benchmark configuration file; never a language.
pub const CONFIG_EXT: &'static str = "args";

impl BenchmarkLanguage {
    /// The source-file extension of the language.
    pub open spec fn ext_spec(self) -> Seq<char> {
        match self {
            BenchmarkLanguage::Scc => "sc"@,
            BenchmarkLanguage::Rust => "rs"@,
            BenchmarkLanguage::Go => "go"@,
            BenchmarkLanguage::Koka => "kk"@,
            BenchmarkLanguage::Effekt => "effekt"@,
            BenchmarkLanguage::SmlNj => "sml"@,
            BenchmarkLanguage::MoonBit => "mbt"@,
            BenchmarkLanguage::OCaml => "ml"@,
        }
    }

    /// The suffix of the binary name; empty where the language has none.
    pub open spec fn suffix_spec(self) -> Seq<char> {
        match self {
            BenchmarkLanguage::Scc => ""@,
            BenchmarkLanguage::Rust => "rust"@,
            BenchmarkLanguage::Go => "go"@,
            BenchmarkLanguage::Koka => "koka"@,
            BenchmarkLanguage::Effekt => "effekt"@,
            BenchmarkLanguage::SmlNj => "smlnj"@,
            BenchmarkLanguage::MoonBit => "moonbit"@,
            BenchmarkLanguage::OCaml => "ocaml"@,
        }
    }

    /// The language whose sources carry the extension `e`, if any.
    pub open spec fn from_ext_spec(e: Seq<char>) -> Option<BenchmarkLanguage> {
        if e == "sc"@ {
            Some(BenchmarkLanguage::Scc)
        } else if e == "rs"@ {
            Some(BenchmarkLanguage::Rust)
        } else if e == "go"@ {
            Some(BenchmarkLanguage::Go)
        } else if e == "kk"@ {
            Some(BenchmarkLanguage::Koka)
        } else if e == "effekt"@ {
            Some(BenchmarkLanguage::Effekt)
        } else if e == "sml"@ {
            Some(BenchmarkLanguage::SmlNj)
        } else if e == "mbt"@ {
            Some(BenchmarkLanguage::MoonBit)
        } else if e == "ml"@ {
            Some(BenchmarkLanguage::OCaml)
        } else {
            None
        }
    }

    pub fn ext(&self) -> (r: &'static str)
        ensures
            r@ == self.ext_spec(),
    {
        match self {
            BenchmarkLanguage::Scc => "sc",
            BenchmarkLanguage::Rust => "rs",
            BenchmarkLanguage::Go => "go",
            BenchmarkLanguage::Koka => "kk",
            BenchmarkLanguage::Effekt => "effekt",
            BenchmarkLanguage::SmlNj => "sml",
            BenchmarkLanguage::MoonBit => "mbt",
            BenchmarkLanguage::OCaml => "ml",
        }
    }

    pub fn suffix(&self) -> (r: &'static str)
        ensures
            r@ == self.suffix_spec(),
    {
        match self {
            BenchmarkLanguage::Scc => "",
            BenchmarkLanguage::Rust => "rust",
            BenchmarkLanguage::Go => "go",
            BenchmarkLanguage::Koka => "koka",
            BenchmarkLanguage::Effekt => "effekt",
            BenchmarkLanguage::SmlNj => "smlnj",
            BenchmarkLanguage::MoonBit => "moonbit",
            BenchmarkLanguage::OCaml => "ocaml",
        }
    }

    /// Looks up the language of a source-file extension; unknown ones give `None`.
    pub fn from_ext(e: &str) -> (r: Option<BenchmarkLanguage>)
        ensures
            r == Self::from_ext_spec(e@),
    {
        if str_eq(e, "sc") {
            Some(BenchmarkLanguage::Scc)
        } else if str_eq(e, "rs") {
            Some(BenchmarkLanguage::Rust)
        } else if str_eq(e, "go") {
            Some(BenchmarkLanguage::Go)
        } else if str_eq(e, "kk") {
            Some(BenchmarkLanguage::Koka)
        } else if str_eq(e, "effekt") {
            Some(BenchmarkLanguage::Effekt)
        } else if str_eq(e, "sml") {
            Some(BenchmarkLanguage::SmlNj)
        } else if str_eq(e, "mbt") {
            Some(BenchmarkLanguage::MoonBit)
        } else if str_eq(e, "ml") {
            Some(BenchmarkLanguage::OCaml)
        } else {
            None
        }
    }
}


proof fn lemma_extensions_distinct()
    ensures
        "sc"@.len() == 2 && "sc"@[0] == 's',
        "rs"@.len() == 2 && "rs"@[0] == 'r',
        "go"@.len() == 2 && "go"@[0] == 'g',
        "kk"@.len() == 2 && "kk"@[0] == 'k',
        "effekt"@.len() == 6 && "effekt"@[0] == 'e',
        "sml"@.len() == 3 && "sml"@[0] == 's',
        "mbt"@.len() == 3 && "mbt"@[0] == 'm',
        "ml"@.len() == 2 && "ml"@[0] == 'm',
        "args"@.len() == 4 && "args"@[0] == 'a',
        CONFIG_EXT@ == "args"@,
{
    reveal_strlit("sc");
    reveal_strlit("rs");
    reveal_strlit("go");
    reveal_strlit("kk");
    reveal_strlit("effekt");
    reveal_strlit("sml");
    reveal_strlit("mbt");
    reveal_strlit("ml");
    reveal_strlit("args");
    assert("sc"@.len() == 2 && "sc"@[0] == 's');
    assert("rs"@.len() == 2 && "rs"@[0] == 'r');
    assert("go"@.len() == 2 && "go"@[0] == 'g');
    assert("kk"@.len() == 2 && "kk"@[0] == 'k');
    assert("effekt"@.len() == 6 && "effekt"@[0] == 'e');
    assert("sml"@.len() == 3 && "sml"@[0] == 's');
    assert("mbt"@.len() == 3 && "mbt"@[0] == 'm');
    assert("ml"@.len() == 2 && "ml"@[0] == 'm');
    assert("args"@.len() == 4 && "args"@[0] == 'a');
}

/// Each language is found again from its own extension, and no language has the
/// extension of the configuration file.
pub proof fn lemma_ext_round_trip(l: BenchmarkLanguage)
    ensures
        BenchmarkLanguage::from_ext_spec(l.ext_spec()) == Some(l),
        l.ext_spec() != CONFIG_EXT@,
{
    lemma_extensions_distinct();
}

/// An extension that names a language is that language's own extension.
pub proof fn lemma_from_ext_exact(e: Seq<char>)
    ensures
        BenchmarkLanguage::from_ext_spec(e) matches Some(l) ==> l.ext_spec() == e,
        e == CONFIG_EXT@ ==> BenchmarkLanguage::from_ext_spec(e) is None,
{
    lemma_extensions_distinct();
}

/// The compiler invocation for a source file `src` that writes the binary `bin`;
/// the heap-size hint is used by the toolchains that take one and ignored by the others.
pub open spec fn compile_cmd_spec(
    lang: BenchmarkLanguage,
    src: Seq<char>,
    bin: Seq<char>,
    heap_size: Option<u64>,
) -> CommandView {
    match lang {
        BenchmarkLanguage::Scc => CommandView {
            program: "scc"@,
            args: seq![src, "-o"@, bin] + match heap_size {
                Some(h) => seq!["--heap-size"@, decimal(h as nat)],
                None => seq![],
            },
            dir: None,
        },
        BenchmarkLanguage::Rust => CommandView {
            program: "rustc"@,
            args: seq!["-C"@, "opt-level=3"@, "-o"@, bin, src],
            dir: None,
        },
        BenchmarkLanguage::Go => CommandView {
            program: "go"@,
            args: seq!["build"@, "-o"@, bin, src],
            dir: None,
        },
        BenchmarkLanguage::Koka => CommandView {
            program: "koka"@,
            args: seq!["-O2"@, "-o"@, bin, src],
            dir: None,
        },
        BenchmarkLanguage::Effekt => CommandView {
            program: "effekt"@,
            args: seq!["--build"@, "-o"@, bin, src],
            dir: None,
        },
        BenchmarkLanguage::SmlNj => CommandView {
            program: "ml-build"@,
            args: seq![src, "Main.main"@, bin],
            dir: None,
        },
        BenchmarkLanguage::MoonBit => CommandView {
            program: "moon"@,
            args: seq!["build"@, "--target"@, "native"@, "--release"@],
            dir: None,
        },
        BenchmarkLanguage::OCaml => CommandView {
            program: "ocamlopt"@,
            args: seq!["-O3"@, "-o"@, bin, src],
            dir: None,
        },
    }
}

/// The invocation that runs the binary `bin`: the binary itself, or for SML/NJ
/// the `sml` loader given the heap image.
pub open spec fn run_cmd_spec(lang: BenchmarkLanguage, bin: Seq<char>) -> CommandView {
    if lang == BenchmarkLanguage::SmlNj {
        CommandView { program: "sml"@, args: seq!["@SMLload"@, bin], dir: None }
    } else {
        CommandView { program: bin, args: seq![], dir: None }
    }
}

impl BenchmarkLanguage {
    /// Builds the compiler invocation for the source `src`, writing the binary `bin`.
    pub fn compile_cmd(&self, src: &str, bin: &str, heap_size: Option<u64>) -> (r: Invocation)
        ensures
            r@ == compile_cmd_spec(*self, src@, bin@, heap_size),
    {
        let mut c;
        match self {
            BenchmarkLanguage::Scc => {
                c = Invocation::new("scc");
                c.arg(src);
                c.arg("-o");
                c.arg(bin);
                if let Some(h) = heap_size {
                    let hs = decimal_string(h);
                    c.arg("--heap-size");
                    c.arg(hs.as_str());
                }
            },
            BenchmarkLanguage::Rust => {
                c = Invocation::new("rustc");
                c.arg("-C");
                c.arg("opt-level=3");
                c.arg("-o");
                c.arg(bin);
                c.arg(src);
            },
            BenchmarkLanguage::Go => {
                c = Invocation::new("go");
                c.arg("build");
                c.arg("-o");
                c.arg(bin);
                c.arg(src);
            },
            BenchmarkLanguage::Koka => {
                c = Invocation::new("koka");
                c.arg("-O2");
                c.arg("-o");
                c.arg(bin);
                c.arg(src);
            },
            BenchmarkLanguage::Effekt => {
                c = Invocation::new("effekt");
                c.arg("--build");
                c.arg("-o");
                c.arg(bin);
                c.arg(src);
            },
            BenchmarkLanguage::SmlNj => {
                c = Invocation::new("ml-build");
                c.arg(src);
                c.arg("Main.main");
                c.arg(bin);
            },
            BenchmarkLanguage::MoonBit => {
                c = Invocation::new("moon");
                c.arg("build");
                c.arg("--target");
                c.arg("native");
                c.arg("--release");
            },
            BenchmarkLanguage::OCaml => {
                c = Invocation::new("ocamlopt");
                c.arg("-O3");
                c.arg("-o");
                c.arg(bin);
                c.arg(src);
            },
        }
        assert(c@.args =~= compile_cmd_spec(*self, src@, bin@, heap_size).args);
        c
    }

    /// Builds the invocation that runs the binary `bin`.
    pub fn run_cmd(&self, bin: &str) -> (r: Invocation)
        ensures
            r@ == run_cmd_spec(*self, bin@),
    {
        if *self == BenchmarkLanguage::SmlNj {
            let mut c = Invocation::new("sml");
            c.arg("@SMLload");
            c.arg(bin);
            assert(c@.args =~= seq!["@SMLload"@, bin@]);
            c
        } else {
            Invocation::new(bin)
        }
    }
}

} // verus!
