//! Remote-control commands for kitty, and the window listing it reports.

use vstd::prelude::*;
use vstd::string::*;
use std::collections::HashMap;

verus! {

/// The character of a decimal digit.
pub open spec fn digit_char(d: nat) -> char {
    if d == 0 {
        '0'
    } else if d == 1 {
        '1'
    } else if d == 2 {
        '2'
    } else if d == 3 {
        '3'
    } else if d == 4 {
        '4'
    } else if d == 5 {
        '5'
    } else if d == 6 {
        '6'
    } else if d == 7 {
        '7'
    } else if d == 8 {
        '8'
    } else {
        '9'
    }
}

/// The decimal digits of `n`, without leading zeros.
pub open spec fn decimal(n: nat) -> Seq<char>
    decreases n,
{
    if n < 10 {
        seq![digit_char(n)]
    } else {
        decimal(n / 10).push(digit_char(n % 10))
    }
}

/// Relies on the Display impl of u64: its decimal digits.
#[verifier::external_body]
fn decimal_string(n: u64) -> (r: String)
    ensures
        r@ == decimal(n as nat),
{
    n.to_string()
}

/// Relies on HashMap::into_iter: each entry exactly once, in an order that
/// the map does not fix.
#[verifier::external_body]
fn map_entries(m: HashMap<String, String>) -> (r: Vec<(String, String)>)
    ensures
        r@.len() == m@.len(),
        forall|i: int|
            0 <= i < r@.len() ==> m@.contains_key((#[trigger] r@[i]).0) && m@[r@[i].0] == r@[i].1,
        forall|i: int, j: int|
            0 <= i < r@.len() && 0 <= j < r@.len() && i != j ==> (#[trigger] r@[i]).0 != (
            #[trigger] r@[j]).0,
        forall|k: String| #[trigger]
            m@.contains_key(k) ==> exists|i: int| 0 <= i < r@.len() && (#[trigger] r@[i]).0 == k,
{
    m.into_iter().collect()
}

/// The argument that sets one color: `name=value`.
pub open spec fn color_arg(name: Seq<char>, value: Seq<char>) -> Seq<char> {
    name + seq!['='] + value
}

/// Whether `arg` sets one of the colors of `colors`.
pub open spec fn sets_some_color(colors: Map<String, String>, arg: Seq<char>) -> bool {
    exists|k: String| #[trigger] colors.contains_key(k) && arg == color_arg(k@, colors[k]@)
}

/// Whether `args` sets the colors of `colors` one for one: the i-th
/// argument sets the color of the i-th of `keys`, which are distinct keys
/// of `colors`, as many as it has.
pub open spec fn sets_colors_in_order(
    args: Seq<String>,
    colors: Map<String, String>,
    keys: Seq<String>,
) -> bool {
    &&& keys.len() == args.len()
    &&& keys.len() == colors.len()
    &&& forall|i: int, j: int|
        0 <= i < keys.len() && 0 <= j < keys.len() && i != j ==> #[trigger] keys[i]
            != #[trigger] keys[j]
    &&& forall|i: int|
        0 <= i < keys.len() ==> colors.contains_key(#[trigger] keys[i]) && args[i]@ == color_arg(
            keys[i]@,
            colors[keys[i]]@,
        )
}

/// Whether one of `args` sets color `k` of `colors`.
pub open spec fn sets_color(args: Seq<String>, colors: Map<String, String>, k: String) -> bool {
    exists|i: int| 0 <= i < args.len() && (#[trigger] args[i])@ == color_arg(k@, colors[k]@)
}

/// A kitty remote-control command: its name, its arguments and an
/// optional payload.
#[derive(Debug)]
pub struct KittyCommand {
    pub cmd: String,
    pub args: Vec<String>,
    pub payload: Option<String>,
}

/// Which way to move between shell prompts.
#[derive(Debug)]
pub enum ScrollDirection {
    Previous,
    Next,
}

impl KittyCommand {
    /// The command with only a name.
    pub fn new(cmd: &str) -> (r: KittyCommand)
        ensures
            r.cmd@ == cmd@,
            r.args@.len() == 0,
            r.payload is None,
    {
        KittyCommand { cmd: String::from_str(cmd), args: Vec::new(), payload: None }
    }

    pub fn with_args(self, args: Vec<String>) -> (r: KittyCommand)
        ensures
            r.cmd == self.cmd,
            r.args == args,
            r.payload == self.payload,
    {
        let mut c = self;
        c.args = args;
        c
    }

    pub fn with_payload(self, payload: String) -> (r: KittyCommand)
        ensures
            r.cmd == self.cmd,
            r.args == self.args,
            r.payload == Some(payload),
    {
        let mut c = self;
        c.payload = Some(payload);
        c
    }

    pub fn get_text() -> (r: KittyCommand)
        ensures
            r.cmd@ == "get-text"@,
            r.args@.len() == 0,
            r.payload is None,
    {
        Self::new("get-text")
    }

    /// Scrolls to a line, given in decimal.
    pub fn scroll_to_line(line: u64) -> (r: KittyCommand)
        ensures
            r.cmd@ == "scroll-to-line"@,
            r.args@.len() == 1,
            r.args@[0]@ == decimal(line as nat),
            r.payload is None,
    {
        Self::new("scroll-to-line").with_args(vec![decimal_string(line)])
    }

    pub fn list_windows() -> (r: KittyCommand)
        ensures
            r.cmd@ == "ls"@,
            r.args@.len() == 0,
            r.payload is None,
    {
        Self::new("ls")
    }

    /// Sends `text`, carried as the payload.
    pub fn send_text(text: &str) -> (r: KittyCommand)
        ensures
            r.cmd@ == "send-text"@,
            r.args@.len() == 0,
            r.payload matches Some(p) && p@ == text@,
    {
        Self::new("send-text").with_payload(String::from_str(text))
    }

    pub fn set_window_title(title: &str) -> (r: KittyCommand)
        ensures
            r.cmd@ == "set-window-title"@,
            r.args@.len() == 1,
            r.args@[0]@ == title@,
            r.payload is None,
    {
        Self::new("set-window-title").with_args(vec![String::from_str(title)])
    }

    /// Resizes the window to `--width=W` and `--height=H`.
    pub fn resize_window(width: u32, height: u32) -> (r: KittyCommand)
        ensures
            r.cmd@ == "resize-window"@,
            r.args@.len() == 2,
            r.args@[0]@ == "--width="@ + decimal(width as nat),
            r.args@[1]@ == "--height="@ + decimal(height as nat),
            r.payload is None,
    {
        let w = String::from_str("--width=").concat(decimal_string(width as u64).as_str());
        let h = String::from_str("--height=").concat(decimal_string(height as u64).as_str());
        Self::new("resize-window").with_args(vec![w, h])
    }

    /// Focuses the window with the given id: `--match=id:ID`.
    pub fn focus_window(window_id: &str) -> (r: KittyCommand)
        ensures
            r.cmd@ == "focus-window"@,
            r.args@.len() == 1,
            r.args@[0]@ == "--match=id:"@ + window_id@,
            r.payload is None,
    {
        let m = String::from_str("--match=id:").concat(window_id);
        Self::new("focus-window").with_args(vec![m])
    }

    pub fn get_colors() -> (r: KittyCommand)
        ensures
            r.cmd@ == "get-colors"@,
            r.args@.len() == 0,
            r.payload is None,
    {
        Self::new("get-colors")
    }

    /// Sets colors: one `name=value` argument for each entry of `colors`,
    /// in the order the map hands them out.
    pub fn set_colors(colors: HashMap<String, String>) -> (r: KittyCommand)
        ensures
            r.cmd@ == "set-colors"@,
            r.args@.len() == colors@.len(),
            forall|i: int|
                0 <= i < r.args@.len() ==> sets_some_color(colors@, (#[trigger] r.args@[i])@),
            forall|k: String| #[trigger] colors@.contains_key(k) ==> sets_color(r.args@, colors@, k),
            exists|keys: Seq<String>| sets_colors_in_order(r.args@, colors@, keys),
            r.payload is None,
    {
        let ghost m = colors@;
        let entries = map_entries(colors);
        let mut args: Vec<String> = Vec::new();
        let mut i: usize = 0;
        while i < entries.len()
            invariant
                i <= entries@.len(),
                args@.len() == i,
                forall|j: int|
                    0 <= j < i ==> (#[trigger] args@[j])@ == color_arg(
                        entries@[j].0@,
                        entries@[j].1@,
                    ),
            decreases entries@.len() - i,
        {
            proof {
                reveal_strlit("=");
            }
            let arg = entries[i].0.clone().concat("=").concat(entries[i].1.as_str());
            args.push(arg);
            i = i + 1;
        }
        let r = Self::new("set-colors").with_args(args);
        let ghost keys = entries@.map_values(|e: (String, String)| e.0);
        assert(sets_colors_in_order(r.args@, m, keys));
        assert forall|j: int| 0 <= j < r.args@.len() implies sets_some_color(
            m,
            (#[trigger] r.args@[j])@,
        ) by {
            let k = entries@[j].0;
            assert(m.contains_key(k) && r.args@[j]@ == color_arg(k@, m[k]@));
        }
        assert forall|k: String| #[trigger] m.contains_key(k) implies sets_color(r.args@, m, k) by {
            let i = choose|i: int| 0 <= i < entries@.len() && (#[trigger] entries@[i]).0 == k;
            assert(r.args@[i]@ == color_arg(k@, m[k]@));
        }
        r
    }

    pub fn create_marker(text: &str) -> (r: KittyCommand)
        ensures
            r.cmd@ == "create-marker"@,
            r.args@.len() == 1,
            r.args@[0]@ == text@,
            r.payload is None,
    {
        Self::new("create-marker").with_args(vec![String::from_str(text)])
    }

    pub fn remove_marker() -> (r: KittyCommand)
        ensures
            r.cmd@ == "remove-marker"@,
            r.args@.len() == 0,
            r.payload is None,
    {
        Self::new("remove-marker")
    }

    /// Moves to the previous or next prompt: `prev` or `next`.
    pub fn scroll_to_prompt(direction: ScrollDirection) -> (r: KittyCommand)
        ensures
            r.cmd@ == "scroll-to-prompt"@,
            r.args@.len() == 1,
            r.args@[0]@ == match direction {
                ScrollDirection::Previous => "prev"@,
                ScrollDirection::Next => "next"@,
            },
            r.payload is None,
    {
        let dir_arg = match direction {
            ScrollDirection::Previous => "prev",
            ScrollDirection::Next => "next",
        };
        Self::new("scroll-to-prompt").with_args(vec![String::from_str(dir_arg)])
    }

    /// The command line that runs this command: `kitty @ CMD ARGS...`.
    pub fn to_command_line(&self) -> (r: Vec<String>)
        ensures
            r@.len() == self.args@.len() + 3,
            r@[0]@ == "kitty"@,
            r@[1]@ == "@"@,
            r@[2]@ == self.cmd@,
            forall|i: int| 0 <= i < self.args@.len() ==> (#[trigger] r@[i + 3])@ == self.args@[i]@,
    {
        let mut line = vec![String::from_str("kitty"), String::from_str("@"), self.cmd.clone()];
        let mut i: usize = 0;
        while i < self.args.len()
            invariant
                i <= self.args@.len(),
                line@.len() == i + 3,
                line@[0]@ == "kitty"@,
                line@[1]@ == "@"@,
                line@[2]@ == self.cmd@,
                forall|j: int| 0 <= j < i ==> (#[trigger] line@[j + 3])@ == self.args@[j]@,
            decreases self.args@.len() - i,
        {
            line.push(self.args[i].clone());
            i = i + 1;
        }
        line
    }
}

/// One window as kitty lists it.
#[derive(Debug)]
pub struct WindowInfo {
    pub id: u32,
    pub title: String,
    pub pid: u32,
    pub cwd: String,
    pub cmdline: Vec<String>,
    pub env: HashMap<String, String>,
}

/// One tab as kitty lists it.
#[derive(Debug)]
pub struct TabInfo {
    pub id: u32,
    pub title: String,
    pub layout: String,
    pub windows: Vec<WindowInfo>,
    pub active_window: u32,
}

/// One operating-system window as kitty lists it.
#[derive(Debug)]
pub struct OSWindowInfo {
    pub id: u32,
    pub tabs: Vec<TabInfo>,
    pub active_tab: u32,
}

} // verus!
