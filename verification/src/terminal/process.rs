//! What to run in a terminal, and how large the terminal is.

use vstd::prelude::*;

use crate::geometry::{larger, max_u16};
use crate::path::FilePath;
use crate::text::{copy_texts, same_text, texts};

verus! {

/// The extent of a terminal in cells. Both are at least two: on a single row or
/// column the emulator cannot wrap and scroll.
#[derive(Debug, Clone, Copy, PartialEq, Eq, Structural)]
pub struct TerminalSize {
    pub cols: u16,
    pub rows: u16,
}

impl TerminalSize {
    pub open spec fn spec_new(cols: u16, rows: u16) -> TerminalSize {
        TerminalSize { cols: max_u16(cols, 2), rows: max_u16(rows, 2) }
    }

    /// Whether a terminal can have this size.
    pub open spec fn safe(self) -> bool {
        self.cols >= 2 && self.rows >= 2
    }

    /// The nearest size that a terminal can have.
    pub fn new(cols: u16, rows: u16) -> (size: TerminalSize)
        ensures
            size == TerminalSize::spec_new(cols, rows),
            size.safe(),
    {
        TerminalSize { cols: larger(cols, 2), rows: larger(rows, 2) }
    }
}

/// An environment variable for a process.
#[derive(Debug, PartialEq, Eq)]
pub struct EnvVar {
    pub key: String,
    pub value: String,
}

/// What to run, with which arguments, where and under which name.
#[derive(Debug, PartialEq, Eq)]
pub struct ProcessSpec {
    pub program: String,
    pub args: Vec<String>,
    pub env: Vec<EnvVar>,
    pub cwd: Option<FilePath>,
    pub display_name: String,
}

pub struct ProcessView {
    pub program: Seq<char>,
    pub args: Seq<Seq<char>>,
    pub env: Map<Seq<char>, Seq<char>>,
    pub cwd: Option<Seq<u8>>,
    pub display_name: Seq<char>,
}

/// The variables that a list sets; a later entry replaces an earlier one.
pub open spec fn env_map(env: Seq<EnvVar>) -> Map<Seq<char>, Seq<char>>
    decreases env.len(),
{
    if env.len() == 0 {
        Map::empty()
    } else {
        env_map(env.drop_last()).insert(env.last().key@, env.last().value@)
    }
}

impl View for ProcessSpec {
    type V = ProcessView;

    open spec fn view(&self) -> ProcessView {
        ProcessView {
            program: self.program@,
            args: texts(self.args@),
            env: env_map(self.env@),
            cwd: match self.cwd {
                Some(path) => Some(path@),
                None => None,
            },
            display_name: self.display_name@,
        }
    }
}

impl ProcessView {
    /// A program that runs without arguments and under its own name.
    pub open spec fn plain(program: Seq<char>) -> ProcessView {
        ProcessView {
            program,
            args: Seq::empty(),
            env: Map::empty(),
            cwd: None,
            display_name: program,
        }
    }
}

impl ProcessSpec {
    pub fn new(program: &str) -> (spec: ProcessSpec)
        ensures
            spec@ == ProcessView::plain(program@),
    {
        let spec = ProcessSpec {
            program: program.to_owned(),
            args: Vec::new(),
            env: Vec::new(),
            cwd: None,
            display_name: program.to_owned(),
        };
        assert(texts(spec.args@) =~= Seq::empty());
        spec
    }

    pub fn display_name(self, display_name: &str) -> (spec: ProcessSpec)
        ensures
            spec@ == (ProcessView { display_name: display_name@, ..self@ }),
    {
        ProcessSpec { display_name: display_name.to_owned(), ..self }
    }

    /// Sets a variable, in place of the value that it had.
    pub fn env(self, key: &str, value: &str) -> (spec: ProcessSpec)
        ensures
            spec@ == (ProcessView { env: self@.env.insert(key@, value@), ..self@ }),
    {
        let mut env: Vec<EnvVar> = Vec::new();
        let mut i: usize = 0;
        while i < self.env.len()
            invariant
                i <= self.env@.len(),
                env_map(env@) == env_map(self.env@.take(i as int)).remove(key@),
            decreases self.env@.len() - i,
        {
            let ghost next = self.env@.take(i + 1);
            assert(next.drop_last() =~= self.env@.take(i as int));
            let entry: &EnvVar = &self.env[i];
            if !same_text(entry.key.as_str(), key) {
                let ghost before = env@;
                env.push(EnvVar { key: entry.key.clone(), value: entry.value.clone() });
                assert(env@.drop_last() =~= before);
            }
            i += 1;
            assert(env_map(env@) =~= env_map(next).remove(key@));
        }
        assert(self.env@.take(i as int) =~= self.env@);
        let ghost before = env@;
        env.push(EnvVar { key: key.to_owned(), value: value.to_owned() });
        assert(env@.drop_last() =~= before);
        assert(env_map(env@) =~= env_map(self.env@).insert(key@, value@));
        ProcessSpec { env, ..self }
    }

    pub fn cwd(self, cwd: FilePath) -> (spec: ProcessSpec)
        ensures
            spec@ == (ProcessView { cwd: Some(cwd@), ..self@ }),
    {
        ProcessSpec { cwd: Some(cwd), ..self }
    }

    /// The value of a variable, if it is set.
    pub fn env_value(&self, key: &str) -> (value: Option<String>)
        ensures
            value is Some <==> self@.env.dom().contains(key@),
            value matches Some(text) ==> text@ == self@.env[key@],
    {
        let mut i: usize = self.env.len();
        assert(self.env@.take(i as int) =~= self.env@);
        while i > 0
            invariant
                i <= self.env@.len(),
                env_map(self.env@.take(i as int)).dom().contains(key@) == self@.env.dom().contains(
                    key@,
                ),
                env_map(self.env@.take(i as int))[key@] == self@.env[key@],
            decreases i,
        {
            let ghost shown = self.env@.take(i as int);
            i -= 1;
            assert(shown.drop_last() =~= self.env@.take(i as int));
            if same_text(self.env[i].key.as_str(), key) {
                return Some(self.env[i].value.clone());
            }
        }
        None
    }

    /// A specification of the same process.
    pub fn copy(&self) -> (spec: ProcessSpec)
        ensures
            spec@ == self@,
    {
        let mut env: Vec<EnvVar> = Vec::new();
        let mut i: usize = 0;
        while i < self.env.len()
            invariant
                i <= self.env@.len(),
                env_map(env@) == env_map(self.env@.take(i as int)),
            decreases self.env@.len() - i,
        {
            let ghost before = env@;
            env.push(
                EnvVar { key: self.env[i].key.clone(), value: self.env[i].value.clone() },
            );
            assert(env@.drop_last() =~= before);
            assert(self.env@.take(i + 1).drop_last() =~= self.env@.take(i as int));
            i += 1;
        }
        assert(self.env@.take(i as int) =~= self.env@);
        ProcessSpec {
            program: self.program.clone(),
            args: copy_texts(&self.args),
            env,
            cwd: match &self.cwd {
                Some(path) => Some(path.copy()),
                None => None,
            },
            display_name: self.display_name.clone(),
        }
    }
}

} // verus!
