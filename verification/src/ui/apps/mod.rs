//! Shell apps.

pub mod calculator;
pub mod clock;
pub mod files;
pub mod keyboard;
pub mod music;
pub mod paint;
pub mod settings;
pub mod sysmon;
pub mod terminal;
pub mod welcome;

use vstd::prelude::*;

verus! {

/// An app of the shell.
#[derive(Clone, Copy, PartialEq, Eq, Structural, Debug)]
pub enum App {
    Welcome,
    SysMon,
    Keyboard,
    Terminal,
    Paint,
    Clock,
    Calculator,
    Files,
    Music,
    Settings,
}

/// Number of apps.
pub const APP_COUNT: usize = 10;

/// Position of `a` in the app cycle.
pub open spec fn app_index(a: App) -> int {
    match a {
        App::Welcome => 0,
        App::SysMon => 1,
        App::Keyboard => 2,
        App::Terminal => 3,
        App::Paint => 4,
        App::Clock => 5,
        App::Calculator => 6,
        App::Files => 7,
        App::Music => 8,
        App::Settings => 9,
    }
}

/// The app at position `i` of the app cycle (the last app for positions past the end).
pub open spec fn app_at(i: int) -> App {
    if i == 0 {
        App::Welcome
    } else if i == 1 {
        App::SysMon
    } else if i == 2 {
        App::Keyboard
    } else if i == 3 {
        App::Terminal
    } else if i == 4 {
        App::Paint
    } else if i == 5 {
        App::Clock
    } else if i == 6 {
        App::Calculator
    } else if i == 7 {
        App::Files
    } else if i == 8 {
        App::Music
    } else {
        App::Settings
    }
}

/// Every app, in cycle order.
pub open spec fn all_apps() -> Seq<App> {
    Seq::new(10, |i: int| app_at(i))
}

/// The app that follows `a` in the cycle; the last wraps round to the first.
pub open spec fn next_app(a: App) -> App {
    app_at((app_index(a) + 1) % 10)
}

impl App {
    /// The title of the app.
    pub open spec fn label_spec(self) -> Seq<char> {
        match self {
            App::Welcome => "Welcome"@,
            App::SysMon => "SysMon"@,
            App::Keyboard => "Keyboard"@,
            App::Terminal => "Terminal"@,
            App::Paint => "Paint"@,
            App::Clock => "Clock"@,
            App::Calculator => "Calculator"@,
            App::Files => "Files"@,
            App::Music => "Music"@,
            App::Settings => "Settings"@,
        }
    }

    /// The one-character badge of the app.
    pub open spec fn icon_spec(self) -> Seq<char> {
        match self {
            App::Welcome => "Z"@,
            App::SysMon => "S"@,
            App::Keyboard => "K"@,
            App::Terminal => ">"@,
            App::Paint => "P"@,
            App::Clock => "C"@,
            App::Calculator => "#"@,
            App::Files => "F"@,
            App::Music => "M"@,
            App::Settings => "*"@,
        }
    }

    /// Every app, in cycle order.
    pub fn all() -> (apps: [App; 10])
        ensures
            apps@ == all_apps(),
    {
        let apps = [App::Welcome, App::SysMon, App::Keyboard, App::Terminal, App::Paint, App::Clock, App::Calculator, App::Files, App::Music, App::Settings];
        apps
    }

    /// The next app in the cycle (the first after the last).
    pub fn next(self) -> (n: Self)
        ensures
            n == next_app(self),
    {
        let all = Self::all();
        let mut idx: usize = 0;
        let mut found = false;
        while idx < all.len()
            invariant_except_break
                !found,
            invariant
                all@ == all_apps(),
                0 <= idx <= 10,
                forall|j: int| 0 <= j < idx ==> all@[j] != self,
            ensures
                found ==> idx < 10 && all@[idx as int] == self,
                !found ==> idx == 10,
                forall|j: int| 0 <= j < idx ==> all@[j] != self,
            decreases 10 - idx,
        {
            if all[idx] == self {
                found = true;
                break;
            }
            idx += 1;
        }
        proof {
            lemma_app_index(self);
        }
        if !found {
            idx = 0;
        }
        all[(idx + 1) % all.len()]
    }

    /// The title of the app.
    pub fn label(self) -> (s: &'static str)
        ensures
            s@ == self.label_spec(),
    {
        match self {
            App::Welcome => "Welcome",
            App::SysMon => "SysMon",
            App::Keyboard => "Keyboard",
            App::Terminal => "Terminal",
            App::Paint => "Paint",
            App::Clock => "Clock",
            App::Calculator => "Calculator",
            App::Files => "Files",
            App::Music => "Music",
            App::Settings => "Settings",
        }
    }

    /// The one-character badge of the app.
    pub fn icon(self) -> (s: &'static str)
        ensures
            s@ == self.icon_spec(),
    {
        match self {
            App::Welcome => "Z",
            App::SysMon => "S",
            App::Keyboard => "K",
            App::Terminal => ">",
            App::Paint => "P",
            App::Clock => "C",
            App::Calculator => "#",
            App::Files => "F",
            App::Music => "M",
            App::Settings => "*",
        }
    }
}

/// Each app sits at its own position of the cycle.
pub proof fn lemma_app_index(a: App)
    ensures
        0 <= app_index(a) < 10,
        app_at(app_index(a)) == a,
        all_apps()[app_index(a)] == a,
{
}

/// The cycle holds every app exactly once.
pub proof fn law_all_apps_distinct()
    ensures
        all_apps().len() == 10,
        forall|i: int, j: int| 0 <= i < j < 10 ==> all_apps()[i] != all_apps()[j],
        forall|a: App| #[trigger] all_apps().contains(a),
{
    assert forall|a: App| #[trigger] all_apps().contains(a) by {
        lemma_app_index(a);
    }
}

/// The app reached from `a` by `n` steps of `next`.
pub open spec fn advance(a: App, n: nat) -> App
    decreases n,
{
    if n == 0 {
        a
    } else {
        next_app(advance(a, (n - 1) as nat))
    }
}

/// Each step of `next` moves one position further round the cycle.
pub proof fn lemma_advance_index(a: App, n: nat)
    ensures
        app_index(advance(a, n)) == (app_index(a) + n) % 10,
    decreases n,
{
    lemma_app_index(a);
    if n > 0 {
        lemma_advance_index(a, (n - 1) as nat);
        let b = advance(a, (n - 1) as nat);
        lemma_app_index(b);
    }
}

/// `next` visits every app once before coming back: ten steps return to the start and
/// no smaller positive number of steps does.
pub proof fn law_next_cycles(a: App, n: nat)
    requires
        0 < n < 10,
    ensures
        advance(a, 10) == a,
        advance(a, n) != a,
{
    lemma_advance_index(a, 10);
    lemma_advance_index(a, n);
    lemma_app_index(a);
    lemma_app_index(advance(a, 10));
    lemma_app_index(advance(a, n));
}

} // verus!
