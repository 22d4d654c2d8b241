//! The Haskell extension's decisions: which language-server binary to run
//! with which arguments, and how to label symbols in completion lists.
//! Worktree lookups (the binary path, the shell environment) come from the
//! host editor; their results are handed in as plain values and every
//! decision on them is made here.

use vstd::prelude::*;

verus! {

use vstd::string::{StrSliceExecFns, StringExecFns};
use crate::text::{str_eq, LineRange};

/// The kinds of symbol this extension labels specially; everything else
/// gets no label.
#[derive(Clone, Copy, PartialEq, Eq, Structural, Debug)]
pub enum SymbolKind {
    Struct,
    Constructor,
    Variable,
    Other,
}

/// A symbol reported by a language server: its kind and its name.
pub struct Symbol {
    pub kind: SymbolKind,
    pub name: String,
}

/// A styled completion label: the code snippet rendered, which range of it
/// is displayed, and which range filtering matches against. Ranges count
/// characters of `code`.
pub struct CodeLabel {
    pub code: String,
    pub spans: Vec<LineRange>,
    pub filter_range: LineRange,
}

/// A command line for launching a language server.
pub struct Command {
    pub command: String,
    pub args: Vec<String>,
    pub env: Vec<(String, String)>,
}

/// What labelling a symbol through the Haskell language server yields: a
/// type name is shown as a data declaration, a constructor inside one, a
/// variable with a type signature; anything else gets no label.
pub open spec fn hls_label_spec(symbol: Symbol, r: Option<CodeLabel>) -> bool {
    match symbol.kind {
        SymbolKind::Struct => {
            &&& r matches Some(l)
            &&& l.code@ == "data "@ + symbol.name@ + " = A"@
            &&& l.spans@.len() == 1
            &&& l.spans@[0].start == 0
            &&& l.spans@[0].end == 5 + symbol.name@.len()
            &&& l.filter_range.start == 5
            &&& l.filter_range.end == 5 + symbol.name@.len()
        },
        SymbolKind::Constructor => {
            &&& r matches Some(l)
            &&& l.code@ == "data A = "@ + symbol.name@
            &&& l.spans@.len() == 1
            &&& l.spans@[0].start == 9
            &&& l.spans@[0].end == 9 + symbol.name@.len()
            &&& l.filter_range.start == 0
            &&& l.filter_range.end == symbol.name@.len()
        },
        SymbolKind::Variable => {
            &&& r matches Some(l)
            &&& l.code@ == symbol.name@ + " :: T"@
            &&& l.spans@.len() == 1
            &&& l.spans@[0].start == 0
            &&& l.spans@[0].end == symbol.name@.len()
            &&& l.filter_range.start == 0
            &&& l.filter_range.end == symbol.name@.len()
        },
        SymbolKind::Other => r is None,
    }
}

/// The Haskell Language Server integration.
pub struct Hls {}

impl Hls {
    /// The identifier this server is registered under.
    pub fn language_server_id() -> (r: &'static str)
        ensures
            r@ == "hls"@,
    {
        "hls"
    }

    pub fn new() -> (r: Hls) {
        Hls {  }
    }

    /// Labels `symbol` as [`hls_label_spec`] describes.
    pub fn label_for_symbol(&self, symbol: &Symbol) -> (r: Option<CodeLabel>)
        requires
            symbol.name@.len() <= usize::MAX - 9,
        ensures
            hls_label_spec(*symbol, r),
    {
        let name_len = symbol.name.unicode_len();
        match symbol.kind {
            SymbolKind::Struct => {
                let mut code = "data ".to_owned();
                code.append(symbol.name.as_str());
                code.append(" = A");
                proof {
                    reveal_strlit("data ");
                }
                let display = LineRange { start: 0, end: 5 + name_len };
                let filter = LineRange { start: 5, end: 5 + name_len };
                let mut spans: Vec<LineRange> = Vec::new();
                spans.push(display);
                Some(CodeLabel { code, spans, filter_range: filter })
            },
            SymbolKind::Constructor => {
                let mut code = "data A = ".to_owned();
                code.append(symbol.name.as_str());
                proof {
                    reveal_strlit("data A = ");
                }
                let display = LineRange { start: 9, end: 9 + name_len };
                let filter = LineRange { start: 0, end: name_len };
                let mut spans: Vec<LineRange> = Vec::new();
                spans.push(display);
                Some(CodeLabel { code, spans, filter_range: filter })
            },
            SymbolKind::Variable => {
                let mut code = symbol.name.clone();
                code.append(" :: T");
                let display = LineRange { start: 0, end: name_len };
                let filter = LineRange { start: 0, end: name_len };
                let mut spans: Vec<LineRange> = Vec::new();
                spans.push(display);
                Some(CodeLabel { code, spans, filter_range: filter })
            },
            SymbolKind::Other => None,
        }
    }
}

/// The static-ls integration: it labels nothing specially.
pub struct StaticLs {}

impl StaticLs {
    /// The identifier this server is registered under.
    pub fn language_server_id() -> (r: &'static str)
        ensures
            r@ == "static-ls"@,
    {
        "static-ls"
    }

    pub fn new() -> (r: StaticLs) {
        StaticLs {  }
    }

    /// static-ls labels no symbol specially.
    pub fn label_for_symbol(&self, symbol: &Symbol) -> (r: Option<CodeLabel>)
        ensures
            r is None,
    {
        let _ = symbol;
        None
    }
}

/// The extension: one lazily-created integration per language server.
pub struct HaskellExtension {
    pub hls: Option<Hls>,
    pub static_ls: Option<StaticLs>,
}

impl HaskellExtension {
    /// A fresh extension; integrations are created on first use.
    pub fn new() -> (r: HaskellExtension)
        ensures
            r.hls is None,
            r.static_ls is None,
    {
        HaskellExtension { hls: None, static_ls: None }
    }

    /// Decides how to launch the requested language server, given the
    /// host's lookup of its binary (`binary_path`) and the worktree's
    /// shell environment. A missing binary and an unknown server id are
    /// rejected with the exact messages shown to the user.
    pub fn language_server_command(
        &mut self,
        language_server_id: &str,
        binary_path: Option<String>,
        shell_env: Vec<(String, String)>,
    ) -> (r: Result<Command, String>)
        ensures
            language_server_id@ == "hls"@ ==> {
                &&& final(self).hls is Some
                &&& final(self).static_ls == old(self).static_ls
                &&& match binary_path {
                    Some(path) => r matches Ok(cmd) && cmd.command == path && cmd.args@.len()
                        == 1 && cmd.args@[0]@ == "lsp"@ && cmd.env@ == shell_env@,
                    None => r matches Err(m) && m@ == "hls must be installed via ghcup"@,
                }
            },
            language_server_id@ == "static-ls"@ ==> {
                &&& final(self).static_ls is Some
                &&& final(self).hls == old(self).hls
                &&& match binary_path {
                    Some(path) => r matches Ok(cmd) && cmd.command == path && cmd.args@.len()
                        == 0 && cmd.env@ == shell_env@,
                    None => r matches Err(m) && m@ == "static-ls could not be found"@,
                }
            },
            language_server_id@ != "hls"@ && language_server_id@ != "static-ls"@ ==> {
                &&& *final(self) == *old(self)
                &&& r matches Err(m) && m@ == "unknown language server: "@
                    + language_server_id@
            },
    {
        proof {
            reveal_strlit("hls");
            reveal_strlit("static-ls");
            assert("hls"@.len() == 3);
            assert("static-ls"@.len() == 9);
        }
        if str_eq(language_server_id, "hls") {
            if self.hls.is_none() {
                self.hls = Some(Hls::new());
            }
            match binary_path {
                Some(path) => {
                    let mut args: Vec<String> = Vec::new();
                    args.push("lsp".to_owned());
                    Ok(Command { command: path, args, env: shell_env })
                },
                None => Err("hls must be installed via ghcup".to_owned()),
            }
        } else if str_eq(language_server_id, "static-ls") {
            if self.static_ls.is_none() {
                self.static_ls = Some(StaticLs::new());
            }
            match binary_path {
                Some(path) => Ok(Command { command: path, args: Vec::new(), env: shell_env }),
                None => Err("static-ls could not be found".to_owned()),
            }
        } else {
            let mut m = "unknown language server: ".to_owned();
            m.append(language_server_id);
            Err(m)
        }
    }

    /// Labels `symbol` with whichever integration owns the server id, or
    /// not at all when that integration was never started.
    pub fn label_for_symbol(&self, language_server_id: &str, symbol: &Symbol) -> (r: Option<
        CodeLabel,
    >)
        requires
            symbol.name@.len() <= usize::MAX - 9,
        ensures
            language_server_id@ == "hls"@ ==> match self.hls {
                Some(_) => hls_label_spec(*symbol, r),
                None => r is None,
            },
            language_server_id@ != "hls"@ ==> r is None,
    {
        proof {
            reveal_strlit("hls");
            reveal_strlit("static-ls");
        }
        if str_eq(language_server_id, "hls") {
            match &self.hls {
                Some(hls) => hls.label_for_symbol(symbol),
                None => None,
            }
        } else if str_eq(language_server_id, "static-ls") {
            match &self.static_ls {
                Some(static_ls) => static_ls.label_for_symbol(symbol),
                None => None,
            }
        } else {
            None
        }
    }
}

} // verus!
