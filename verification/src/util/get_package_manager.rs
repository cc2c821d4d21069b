//! Which package manager a project uses, told from the user agent that the
//! package manager sets when it runs a command, or else from the
//! `packageManager` member of `package.json`.

use crate::text::{opt_text, same_text};
use vstd::prelude::*;
use vstd::string::*;

verus! {

/// The command that runs a package without installing it.
#[derive(Debug, Clone, Copy, PartialEq, Eq, Structural)]
pub enum PackageRunners {
    PnpmDlx,
    Bunx,
    Npx,
    YarnDlx,
}

/// The package managers that are told apart.
#[derive(Debug, Clone, Copy, PartialEq, Eq, Structural)]
pub enum PackageManagerKind {
    Npm,
    Yarn,
    Pnpm,
    Bun,
}

/// A package manager and its version, where that is known.
#[derive(Debug, Clone, PartialEq, Eq)]
pub struct PackageManager {
    pub kind: PackageManagerKind,
    pub version: Option<String>,
}

/// The mathematical value of a [`PackageManager`].
pub struct PackageManagerView {
    pub kind: PackageManagerKind,
    pub version: Option<Seq<char>>,
}

impl View for PackageManager {
    type V = PackageManagerView;

    open spec fn view(&self) -> PackageManagerView {
        PackageManagerView { kind: self.kind, version: opt_text(self.version) }
    }
}

impl PackageRunners {
    /// The command line of the runner.
    pub open spec fn command(self) -> Seq<char> {
        match self {
            PackageRunners::PnpmDlx => "pnpm dlx"@,
            PackageRunners::Bunx => "bunx"@,
            PackageRunners::Npx => "npx"@,
            PackageRunners::YarnDlx => "yarn dlx"@,
        }
    }

    /// The command line of the runner.
    pub fn as_str(&self) -> (r: &'static str)
        ensures
            r@ == self.command(),
    {
        match self {
            PackageRunners::PnpmDlx => "pnpm dlx",
            PackageRunners::Bunx => "bunx",
            PackageRunners::Npx => "npx",
            PackageRunners::YarnDlx => "yarn dlx",
        }
    }
}

/// The runner that belongs to a package manager.
pub open spec fn runner_of(kind: PackageManagerKind) -> PackageRunners {
    match kind {
        PackageManagerKind::Npm => PackageRunners::Npx,
        PackageManagerKind::Yarn => PackageRunners::YarnDlx,
        PackageManagerKind::Pnpm => PackageRunners::PnpmDlx,
        PackageManagerKind::Bun => PackageRunners::Bunx,
    }
}

/// The package manager that goes by `name`.
pub open spec fn kind_of(name: Seq<char>) -> Option<PackageManagerKind> {
    if name == "npm"@ {
        Some(PackageManagerKind::Npm)
    } else if name == "pnpm"@ {
        Some(PackageManagerKind::Pnpm)
    } else if name == "yarn"@ {
        Some(PackageManagerKind::Yarn)
    } else if name == "bun"@ {
        Some(PackageManagerKind::Bun)
    } else {
        None
    }
}

/// White space, as Unicode defines it.
pub open spec fn is_space(c: char) -> bool {
    let n = c as u32;
    ||| 0x09 <= n <= 0x0D
    ||| n == 0x20
    ||| n == 0x85
    ||| n == 0xA0
    ||| n == 0x1680
    ||| 0x2000 <= n <= 0x200A
    ||| n == 0x2028
    ||| n == 0x2029
    ||| n == 0x202F
    ||| n == 0x205F
    ||| n == 0x3000
}

/// The first index from `from` on at which `s` holds white space; the
/// length of `s` where it holds none.
pub open spec fn next_space(s: Seq<char>, from: int) -> int
    decreases s.len() - from,
{
    if from >= s.len() {
        s.len() as int
    } else if is_space(s[from]) {
        from
    } else {
        next_space(s, from + 1)
    }
}

/// The first index from `from` on at which `s` holds no white space; the
/// length of `s` where it holds nothing else.
pub open spec fn next_word(s: Seq<char>, from: int) -> int
    decreases s.len() - from,
{
    if from >= s.len() {
        s.len() as int
    } else if is_space(s[from]) {
        next_word(s, from + 1)
    } else {
        from
    }
}

/// The first index from `from` on at which `s` holds `c`; the length of `s`
/// where it does not hold it.
pub open spec fn next_char(s: Seq<char>, c: char, from: int) -> int
    decreases s.len() - from,
{
    if from >= s.len() {
        s.len() as int
    } else if s[from] == c {
        from
    } else {
        next_char(s, c, from + 1)
    }
}

/// The first word of a text: what stands between its leading white space
/// and the next white space. `None` where the text holds no word.
pub open spec fn first_word(s: Seq<char>) -> Option<Seq<char>> {
    let start = next_word(s, 0);
    if start >= s.len() {
        None
    } else {
        Some(s.subrange(start, next_space(s, start)))
    }
}

/// The part of `s` before its first `c`; all of `s` where it holds none.
pub open spec fn before(s: Seq<char>, c: char) -> Seq<char> {
    s.subrange(0, next_char(s, c, 0))
}

/// The part of `s` after its first `c`; `None` where it holds none.
pub open spec fn after(s: Seq<char>, c: char) -> Option<Seq<char>> {
    let at = next_char(s, c, 0);
    if at >= s.len() {
        None
    } else {
        Some(s.subrange(at + 1, s.len() as int))
    }
}

/// What a user agent tells: its first word is a name, a slash and a
/// version, which ends at the next slash; the name says which package
/// manager it is. `None` where there is no word or the name is none of
/// the known ones.
pub open spec fn agent_manager(agent: Seq<char>) -> Option<PackageManagerView> {
    match first_word(agent) {
        None => None,
        Some(word) => match kind_of(before(word, '/')) {
            None => None,
            Some(kind) => Some(
                PackageManagerView {
                    kind,
                    version: match after(word, '/') {
                        Some(rest) => Some(before(rest, '/')),
                        None => None,
                    },
                },
            ),
        },
    }
}

/// What the `packageManager` member tells: a name, and after the first `@`
/// the version. `None` where the name is none of the known ones.
pub open spec fn declared_manager(field: Seq<char>) -> Option<PackageManagerView> {
    match kind_of(before(field, '@')) {
        None => None,
        Some(kind) => Some(PackageManagerView { kind, version: after(field, '@') }),
    }
}

/// The package manager in use: what the user agent tells, else what
/// `package.json` declares.
pub open spec fn manager_of(
    agent: Option<Seq<char>>,
    field: Option<Seq<char>>,
) -> Option<PackageManagerView> {
    let told = match agent {
        Some(a) => agent_manager(a),
        None => None,
    };
    match told {
        Some(m) => Some(m),
        None => match field {
            Some(f) => declared_manager(f),
            None => None,
        },
    }
}

/// Whether a character is white space.
pub fn space(c: char) -> (r: bool)
    ensures
        r == is_space(c),
{
    let n: u32 = c as u32;
    (0x09 <= n && n <= 0x0D) || n == 0x20 || n == 0x85 || n == 0xA0 || n == 0x1680 || (0x2000 <= n
        && n <= 0x200A) || n == 0x2028 || n == 0x2029 || n == 0x202F || n == 0x205F || n == 0x3000
}

/// The index of the first white space from `from` on, or the length.
fn find_space(s: &str, from: usize) -> (r: usize)
    requires
        from <= s@.len(),
    ensures
        r == next_space(s@, from as int),
        from <= r <= s@.len(),
{
    let n: usize = s.unicode_len();
    let mut i: usize = from;
    while i < n
        invariant
            from <= i <= n,
            n == s@.len(),
            next_space(s@, from as int) == next_space(s@, i as int),
        decreases n - i,
    {
        if space(s.get_char(i)) {
            return i;
        }
        i = i + 1;
    }
    i
}

/// The index of the first character from `from` on that is no white
/// space, or the length.
fn find_word(s: &str, from: usize) -> (r: usize)
    requires
        from <= s@.len(),
    ensures
        r == next_word(s@, from as int),
        from <= r <= s@.len(),
{
    let n: usize = s.unicode_len();
    let mut i: usize = from;
    while i < n
        invariant
            from <= i <= n,
            n == s@.len(),
            next_word(s@, from as int) == next_word(s@, i as int),
        decreases n - i,
    {
        if !space(s.get_char(i)) {
            return i;
        }
        i = i + 1;
    }
    i
}

/// The index of the first `c` in `s`, or the length of `s`.
pub fn find_char(s: &str, c: char) -> (r: usize)
    ensures
        r == next_char(s@, c, 0),
        r <= s@.len(),
{
    let n: usize = s.unicode_len();
    let mut i: usize = 0;
    while i < n
        invariant
            i <= n,
            n == s@.len(),
            next_char(s@, c, 0) == next_char(s@, c, i as int),
        decreases n - i,
    {
        if s.get_char(i) == c {
            return i;
        }
        i = i + 1;
    }
    i
}

/// Tells a package manager by its name.
pub fn kind_from_name(name: &str) -> (r: Option<PackageManagerKind>)
    ensures
        r == kind_of(name@),
{
    if same_text(name, "npm") {
        Some(PackageManagerKind::Npm)
    } else if same_text(name, "pnpm") {
        Some(PackageManagerKind::Pnpm)
    } else if same_text(name, "yarn") {
        Some(PackageManagerKind::Yarn)
    } else if same_text(name, "bun") {
        Some(PackageManagerKind::Bun)
    } else {
        None
    }
}

/// The package manager that a user agent tells of.
pub fn detect_from_user_agent(agent: &str) -> (r: Option<PackageManager>)
    ensures
        match r {
            Some(m) => agent_manager(agent@) == Some(m@),
            None => agent_manager(agent@) is None,
        },
{
    let n: usize = agent.unicode_len();
    let start = find_word(agent, 0);
    if start >= n {
        return None;
    }
    let end = find_space(agent, start);
    let word = agent.substring_char(start, end);
    let slash = find_char(word, '/');
    let name = word.substring_char(0, slash);
    match kind_from_name(name) {
        None => None,
        Some(kind) => {
            let length: usize = word.unicode_len();
            let version = if slash < length {
                let rest = word.substring_char(slash + 1, length);
                let stop = find_char(rest, '/');
                Some(rest.substring_char(0, stop).to_owned())
            } else {
                None
            };
            Some(PackageManager { kind, version })
        },
    }
}

/// The package manager that the `packageManager` member declares.
pub fn detect_from_package_json(field: &str) -> (r: Option<PackageManager>)
    ensures
        match r {
            Some(m) => declared_manager(field@) == Some(m@),
            None => declared_manager(field@) is None,
        },
{
    let at = find_char(field, '@');
    let name = field.substring_char(0, at);
    match kind_from_name(name) {
        None => None,
        Some(kind) => {
            let length: usize = field.unicode_len();
            let version = if at < length {
                Some(field.substring_char(at + 1, length).to_owned())
            } else {
                None
            };
            Some(PackageManager { kind, version })
        },
    }
}

/// The package manager in use, given the user agent that the environment
/// holds, if any, and the `packageManager` member of `package.json`, if
/// there is one.
pub fn get_package_manager(agent: Option<&str>, field: Option<&str>) -> (r: Option<PackageManager>)
    ensures
        match r {
            Some(m) => manager_of(
                match agent {
                    Some(a) => Some(a@),
                    None => None,
                },
                match field {
                    Some(f) => Some(f@),
                    None => None,
                },
            ) == Some(m@),
            None => manager_of(
                match agent {
                    Some(a) => Some(a@),
                    None => None,
                },
                match field {
                    Some(f) => Some(f@),
                    None => None,
                },
            ) is None,
        },
{
    let told = match agent {
        Some(a) => detect_from_user_agent(a),
        None => None,
    };
    match told {
        Some(m) => Some(m),
        None => match field {
            Some(f) => detect_from_package_json(f),
            None => None,
        },
    }
}

/// The runner of the package manager in use.
pub fn get_package_runner(agent: Option<&str>, field: Option<&str>) -> (r: Option<PackageRunners>)
    ensures
        r == match manager_of(
            match agent {
                Some(a) => Some(a@),
                None => None,
            },
            match field {
                Some(f) => Some(f@),
                None => None,
            },
        ) {
            Some(m) => Some(runner_of(m.kind)),
            None => None,
        },
{
    match get_package_manager(agent, field) {
        Some(m) => Some(
            match m.kind {
                PackageManagerKind::Npm => PackageRunners::Npx,
                PackageManagerKind::Yarn => PackageRunners::YarnDlx,
                PackageManagerKind::Pnpm => PackageRunners::PnpmDlx,
                PackageManagerKind::Bun => PackageRunners::Bunx,
            },
        ),
        None => None,
    }
}

} // verus!
