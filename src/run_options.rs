//! The program's start-up options: which outputs to drive, and whether the status feed
//! is on, from presence-only command-line flags.
use vstd::prelude::*;
use crate::text::{chars_of, string_views};

verus! {

/// The outputs and inputs chosen on the command line.
#[derive(PartialEq, Eq, Structural, Clone, Copy, Debug)]
pub struct RunOptions {
    pub use_window: bool,
    pub use_st7789: bool,
    pub use_bluetooth: bool,
}

/// The operating system the program runs on, as far as the options care.
#[derive(PartialEq, Eq, Structural, Clone, Copy, Debug)]
pub enum Platform {
    Windows,
    Linux,
    Other,
}

/// Why a choice of options cannot run.
#[derive(PartialEq, Eq, Structural, Clone, Copy, Debug)]
pub enum StartupError {
    /// The SPI panel is asked for on Windows, which has no driver for it.
    St7789OnWindows,
    /// No window on Windows, where the window is the only output.
    NoDisplayOnWindows,
    /// Neither output on Linux.
    NoDisplayOnLinux,
}

/// The flag `--window`.
pub open spec fn window_flag() -> Seq<char> {
    seq!['-', '-', 'w', 'i', 'n', 'd', 'o', 'w']
}

/// The flag `--st7789`.
pub open spec fn st7789_flag() -> Seq<char> {
    seq!['-', '-', 's', 't', '7', '7', '8', '9']
}

/// The flag `--bluetooth`.
pub open spec fn bluetooth_flag() -> Seq<char> {
    seq!['-', '-', 'b', 'l', 'u', 'e', 't', 'o', 'o', 't', 'h']
}

/// The options that the arguments give: each flag is on exactly when some argument is
/// that flag; other arguments are ignored.
pub open spec fn options_of(args: Seq<Seq<char>>) -> RunOptions {
    RunOptions {
        use_window: args.contains(window_flag()),
        use_st7789: args.contains(st7789_flag()),
        use_bluetooth: args.contains(bluetooth_flag()),
    }
}

/// The first rule that the options break on the platform, if any.
pub open spec fn startup_error(o: RunOptions, p: Platform) -> Option<StartupError> {
    if o.use_st7789 && p == Platform::Windows {
        Some(StartupError::St7789OnWindows)
    } else if !o.use_window && p == Platform::Windows {
        Some(StartupError::NoDisplayOnWindows)
    } else if !o.use_window && !o.use_st7789 && p == Platform::Linux {
        Some(StartupError::NoDisplayOnLinux)
    } else {
        None
    }
}

fn same_chars(a: &Vec<char>, b: &Vec<char>) -> (r: bool)
    ensures
        r == (a@ == b@),
{
    if a.len() != b.len() {
        return false;
    }
    let mut k: usize = 0;
    while k < a.len()
        invariant
            k <= a@.len() == b@.len(),
            forall|j: int| 0 <= j < k ==> a@[j] == b@[j],
        decreases a@.len() - k,
    {
        if a[k] != b[k] {
            return false;
        }
        k = k + 1;
    }
    assert(a@ =~= b@);
    true
}

impl RunOptions {
    /// Reads the flags from the command-line arguments.
    pub fn from_args(args: &Vec<String>) -> (o: RunOptions)
        ensures
            o == options_of(string_views(args@)),
    {
        let window = vec!['-', '-', 'w', 'i', 'n', 'd', 'o', 'w'];
        let st7789 = vec!['-', '-', 's', 't', '7', '7', '8', '9'];
        let bluetooth = vec!['-', '-', 'b', 'l', 'u', 'e', 't', 'o', 'o', 't', 'h'];
        let ghost a = string_views(args@);
        let mut o = RunOptions { use_window: false, use_st7789: false, use_bluetooth: false };
        let mut i: usize = 0;
        while i < args.len()
            invariant
                i <= args@.len(),
                a == string_views(args@),
                window@ == window_flag(),
                st7789@ == st7789_flag(),
                bluetooth@ == bluetooth_flag(),
                o == options_of(a.subrange(0, i as int)),
            decreases args@.len() - i,
        {
            let cs = chars_of(args[i].as_str());
            assert(cs@ == a[i as int]);
            assert(a.subrange(0, i + 1) =~= a.subrange(0, i as int).push(a[i as int]));
            if same_chars(&cs, &window) {
                o.use_window = true;
            }
            if same_chars(&cs, &st7789) {
                o.use_st7789 = true;
            }
            if same_chars(&cs, &bluetooth) {
                o.use_bluetooth = true;
            }
            proof {
                let p = a.subrange(0, i + 1);
                let q = a.subrange(0, i as int);
                assert(p.contains(window_flag()) == (q.contains(window_flag()) || cs@ == window_flag())) by {
                    if p.contains(window_flag()) && cs@ != window_flag() {
                        let k = choose|k: int| 0 <= k < p.len() && p[k] == window_flag();
                        assert(q[k] == window_flag());
                    }
                    if cs@ == window_flag() {
                        assert(p[i as int] == window_flag());
                    }
                    if q.contains(window_flag()) {
                        let k = choose|k: int| 0 <= k < q.len() && q[k] == window_flag();
                        assert(p[k] == window_flag());
                    }
                }
                assert(p.contains(st7789_flag()) == (q.contains(st7789_flag()) || cs@ == st7789_flag())) by {
                    if p.contains(st7789_flag()) && cs@ != st7789_flag() {
                        let k = choose|k: int| 0 <= k < p.len() && p[k] == st7789_flag();
                        assert(q[k] == st7789_flag());
                    }
                    if cs@ == st7789_flag() {
                        assert(p[i as int] == st7789_flag());
                    }
                    if q.contains(st7789_flag()) {
                        let k = choose|k: int| 0 <= k < q.len() && q[k] == st7789_flag();
                        assert(p[k] == st7789_flag());
                    }
                }
                assert(p.contains(bluetooth_flag()) == (q.contains(bluetooth_flag()) || cs@ == bluetooth_flag())) by {
                    if p.contains(bluetooth_flag()) && cs@ != bluetooth_flag() {
                        let k = choose|k: int| 0 <= k < p.len() && p[k] == bluetooth_flag();
                        assert(q[k] == bluetooth_flag());
                    }
                    if cs@ == bluetooth_flag() {
                        assert(p[i as int] == bluetooth_flag());
                    }
                    if q.contains(bluetooth_flag()) {
                        let k = choose|k: int| 0 <= k < q.len() && q[k] == bluetooth_flag();
                        assert(p[k] == bluetooth_flag());
                    }
                }
            }
            i = i + 1;
        }
        assert(a.subrange(0, a.len() as int) =~= a);
        o
    }

    /// Checks that the chosen outputs can run on the platform.
    pub fn check(&self, platform: Platform) -> (r: Result<(), StartupError>)
        ensures
            match startup_error(*self, platform) {
                Some(e) => r == Err::<(), StartupError>(e),
                None => r is Ok,
            },
    {
        if self.use_st7789 && platform == Platform::Windows {
            Err(StartupError::St7789OnWindows)
        } else if !self.use_window && platform == Platform::Windows {
            Err(StartupError::NoDisplayOnWindows)
        } else if !self.use_window && !self.use_st7789 && platform == Platform::Linux {
            Err(StartupError::NoDisplayOnLinux)
        } else {
            Ok(())
        }
    }
}

} // verus!
