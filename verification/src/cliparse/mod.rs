//! The command line of the tools: which tool to run and on what.
use vstd::prelude::*;
use vstd::string::StringExecFns;

verus! {

/// The options of the tools.
#[derive(Debug)]
pub struct MyApp {
    /// The tool to run.
    pub mode: Mode,
    /// The files to read.
    pub path: Vec<String>,
    /// Whether to print what is done.
    pub debug: bool,
    /// A directory to read instead of `path`.
    pub dir: Option<String>,
    /// The directory to write to, `./` where empty.
    pub output: String,
}

/// The tools.
#[derive(Debug, Clone, Copy, PartialEq, Eq, PartialOrd, Ord, Structural)]
pub enum Mode {
    /// Lua handlers from `.proto` files, line by line.
    Proto2lua,
    /// Nothing yet.
    Nothing,
    /// The `.proto` files parsed as a grammar.
    Proto2luaNew,
}

/// The mathematical value of [`MyApp`].
pub struct MyAppView {
    pub mode: Mode,
    pub path: Seq<Seq<char>>,
    pub debug: bool,
    pub dir: Option<Seq<char>>,
    pub output: Seq<char>,
}

impl DeepView for MyApp {
    type V = MyAppView;

    open spec fn deep_view(&self) -> MyAppView {
        MyAppView {
            mode: self.mode,
            path: self.path.deep_view(),
            debug: self.debug,
            dir: self.dir.deep_view(),
            output: self.output@,
        }
    }
}

/// Options that have defaults, and are filled from other options.
pub trait IDefault<T> {
    /// Fills in what was left empty.
    fn fill_default(&mut self);

    /// The options before anything is given.
    fn get_default() -> T;

    /// Takes every option from `other`.
    fn from_other(&mut self, other: T);
}

impl IDefault<MyApp> for MyApp {
    /// An empty output directory becomes `./`.
    fn fill_default(&mut self)
        ensures
            final(self).deep_view() == (MyAppView {
                output: if old(self).output@.len() == 0 {
                    "./"@
                } else {
                    old(self).output@
                },
                ..old(self).deep_view()
            }),
    {
        if self.output.as_str().is_empty() {
            self.output = String::from_str("./");
        }
    }

    /// The line-by-line tool on no files, quietly, into an empty output
    /// directory.
    fn get_default() -> (r: MyApp)
        ensures
            r.deep_view() == (MyAppView {
                mode: Mode::Proto2lua,
                path: Seq::empty(),
                debug: false,
                dir: None,
                output: Seq::empty(),
            }),
    {
        let r = MyApp {
            mode: Mode::Proto2lua,
            path: Vec::new(),
            debug: false,
            dir: None,
            output: String::new(),
        };
        assert(r.path.deep_view() =~= Seq::<Seq<char>>::empty());
        r
    }

    fn from_other(&mut self, other: MyApp)
        ensures
            final(self).deep_view() == other.deep_view(),
    {
        self.output = other.output;
        self.dir = other.dir;
        self.debug = other.debug;
        self.path = other.path;
        self.mode = other.mode;
    }
}

} // verus!
