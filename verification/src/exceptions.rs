//! The programs that are running, and those in which nothing is switched.

use vstd::prelude::*;

use crate::order::{self, place, same_text, Placement};
use crate::text::{self, chars_of, text_between};
use crate::unicode;

verus! {

/// A program with a visible window.
#[derive(Debug)]
pub struct RunningApp {
    /// The name of its file.
    pub exe: String,
    /// The title of its window.
    pub title: String,
}

impl RunningApp {
    /// The name and the title.
    pub open spec fn pair(self) -> (Seq<char>, Seq<char>) {
        (self.exe@, self.title@)
    }
}

impl Clone for RunningApp {
    fn clone(&self) -> (r: RunningApp)
        ensures
            r.pair() == self.pair(),
    {
        RunningApp { exe: self.exe.clone(), title: self.title.clone() }
    }
}

/// Names and titles of some programs.
pub open spec fn pairs(apps: Seq<RunningApp>) -> Seq<(Seq<char>, Seq<char>)> {
    apps.map_values(|a: RunningApp| a.pair())
}

/// A window shows up in the list: it is visible, has a title, and its program
/// is known.
pub fn note_window(
    list: &mut Vec<RunningApp>,
    visible: bool,
    title_len: i32,
    exe: Option<String>,
    title: String,
)
    ensures
        pairs(final(list)@) == (if visible && title_len > 0 && exe is Some {
            pairs(old(list)@).push((exe->0@, title@))
        } else {
            pairs(old(list)@)
        }),
{
    if !visible || title_len <= 0 {
        return;
    }
    match exe {
        Some(exe) => {
            list.push(RunningApp { exe, title });
            assert(pairs(list@) =~= pairs(old(list)@).push(
                (list@[list@.len() - 1].exe@, list@[list@.len() - 1].title@),
            ));
        },
        None => {},
    }
}

/// The first window of a program among some.
pub open spec fn first_of(apps: Seq<RunningApp>, exe: Seq<char>) -> Option<Seq<char>>
    decreases apps.len(),
{
    if apps.len() == 0 {
        None
    } else {
        match first_of(apps.drop_last(), exe) {
            Some(title) => Some(title),
            None => if apps.last().exe@ == exe {
                Some(apps.last().title@)
            } else {
                None
            },
        }
    }
}

/// The programs are in the order of their names, each of them once.
pub open spec fn in_order(apps: Seq<RunningApp>) -> bool {
    forall|i: int, j: int|
        0 <= i < j < apps.len() ==> order::precedes(#[trigger] apps[i].exe@, #[trigger] apps[j].exe@)
}

/// The list holds a program with a title.
pub open spec fn lists_app(apps: Seq<RunningApp>, exe: Seq<char>, title: Seq<char>) -> bool {
    exists|i: int| 0 <= i < apps.len() && (#[trigger] apps[i]).exe@ == exe && apps[i].title@ == title
}

/// The list holds every program among some others than `own`, with its first
/// title, and no other.
pub open spec fn summary_of(list: Seq<RunningApp>, apps: Seq<RunningApp>, own: Seq<char>) -> bool {
    &&& in_order(list)
    &&& forall|exe: Seq<char>, title: Seq<char>| #[trigger]
        lists_app(list, exe, title) <==> exe != own && first_of(apps, exe) == Some(title)
}

/// Finds where a program belongs in an ordered list, and whether it is there.
fn find_app(list: &Vec<RunningApp>, exe: &str) -> (r: (usize, bool))
    requires
        in_order(list@),
    ensures
        r.0 <= list@.len(),
        r.1 ==> r.0 < list@.len() && list@[r.0 as int].exe@ == exe@,
        !r.1 ==> forall|i: int| 0 <= i < list@.len() ==> (#[trigger] list@[i]).exe@ != exe@,
        forall|i: int| 0 <= i < r.0 ==> order::precedes(#[trigger] list@[i].exe@, exe@),
        !r.1 ==> forall|i: int|
            r.0 <= i < list@.len() ==> order::precedes(exe@, #[trigger] list@[i].exe@),
{
    let mut i: usize = 0;
    while i < list.len()
        invariant
            i <= list@.len(),
            in_order(list@),
            forall|j: int| 0 <= j < i ==> order::precedes(#[trigger] list@[j].exe@, exe@),
        decreases list.len() - i,
    {
        match place(list[i].exe.as_str(), exe) {
            Placement::Before => {},
            Placement::Same => {
                return (i, true);
            },
            Placement::After => {
                proof {
                    assert forall|j: int| i <= j < list@.len() implies order::precedes(
                        exe@,
                        #[trigger] list@[j].exe@,
                    ) by {
                        if j > i {
                            order::lemma_precedes_transitive(
                                exe@,
                                list@[i as int].exe@,
                                list@[j].exe@,
                            );
                        }
                    }
                    assert forall|j: int| 0 <= j < list@.len() implies (#[trigger] list@[j]).exe@
                        != exe@ by {
                        if list@[j].exe@ == exe@ {
                            if j < i {
                                order::lemma_precedes_asymmetric(list@[j].exe@, exe@);
                            } else {
                                order::lemma_precedes_asymmetric(exe@, list@[j].exe@);
                            }
                        }
                    }
                }
                return (i, false);
            },
        }
        i += 1;
    }
    proof {
        assert forall|j: int| 0 <= j < list@.len() implies (#[trigger] list@[j]).exe@ != exe@ by {
            if list@[j].exe@ == exe@ {
                order::lemma_precedes_asymmetric(list@[j].exe@, exe@);
            }
        }
    }
    (i, false)
}

/// The programs with visible windows, in the order of their names, each with
/// the title that was seen first; the program itself is left out.
pub fn enumerate_visible_apps(raw: &Vec<RunningApp>, self_exe: &str) -> (r: Vec<RunningApp>)
    ensures
        summary_of(r@, raw@, self_exe@),
{
    let mut list: Vec<RunningApp> = Vec::new();
    let mut n: usize = 0;
    proof {
        assert forall|exe: Seq<char>, title: Seq<char>| #[trigger]
            lists_app(list@, exe, title) <==> exe != self_exe@ && first_of(raw@.take(0), exe)
                == Some(title) by {}
    }
    while n < raw.len()
        invariant
            n <= raw@.len(),
            summary_of(list@, raw@.take(n as int), self_exe@),
        decreases raw.len() - n,
    {
        let ghost before = list@;
        let ghost done = raw@.take(n as int);
        let ghost more = raw@.take(n + 1);
        proof {
            assert(more.drop_last() =~= done);
            assert(more.last() == raw@[n as int]);
        }
        let app = &raw[n];
        if !same_text(app.exe.as_str(), self_exe) {
            let (at, known) = find_app(&list, app.exe.as_str());
            if !known {
                list.insert(at, app.clone());
                proof {
                    lemma_inserted(before, list@, at as int, raw@[n as int], done, more, self_exe@);
                }
            } else {
                proof {
                    lemma_known(before, at as int, raw@[n as int], done, more, self_exe@);
                }
            }
        } else {
            proof {
                assert forall|exe: Seq<char>, title: Seq<char>| #[trigger]
                    lists_app(list@, exe, title) <==> exe != self_exe@ && first_of(more, exe)
                        == Some(title) by {}
            }
        }
        n += 1;
    }
    assert(raw@.take(raw@.len() as int) =~= raw@);
    list
}

proof fn lemma_known(
    list: Seq<RunningApp>,
    at: int,
    app: RunningApp,
    done: Seq<RunningApp>,
    more: Seq<RunningApp>,
    own: Seq<char>,
)
    requires
        summary_of(list, done, own),
        0 <= at < list.len(),
        list[at].exe@ == app.exe@,
        more.len() > 0,
        more.drop_last() == done,
        more.last() == app,
    ensures
        summary_of(list, more, own),
{
    assert(lists_app(list, app.exe@, list[at].title@));
    assert(first_of(done, app.exe@) is Some);
    assert forall|exe: Seq<char>, title: Seq<char>| #[trigger]
        lists_app(list, exe, title) <==> exe != own && first_of(more, exe) == Some(title) by {}
}

proof fn lemma_inserted(
    before: Seq<RunningApp>,
    list: Seq<RunningApp>,
    at: int,
    app: RunningApp,
    done: Seq<RunningApp>,
    more: Seq<RunningApp>,
    own: Seq<char>,
)
    requires
        summary_of(before, done, own),
        0 <= at <= before.len(),
        list.len() == before.len() + 1,
        list[at].pair() == app.pair(),
        list == before.insert(at, list[at]),
        app.exe@ != own,
        forall|i: int| 0 <= i < before.len() ==> (#[trigger] before[i]).exe@ != app.exe@,
        forall|i: int| 0 <= i < at ==> order::precedes(#[trigger] before[i].exe@, app.exe@),
        forall|i: int| at <= i < before.len() ==> order::precedes(app.exe@, #[trigger] before[i].exe@),
        more.len() > 0,
        more.drop_last() == done,
        more.last() == app,
    ensures
        summary_of(list, more, own),
{
    assert(first_of(done, app.exe@) is None) by {
        if first_of(done, app.exe@) is Some {
            assert(lists_app(before, app.exe@, first_of(done, app.exe@)->0));
        }
    }
    assert forall|i: int, j: int| 0 <= i < j < list.len() implies order::precedes(
        #[trigger] list[i].exe@,
        #[trigger] list[j].exe@,
    ) by {
        if i < at {
            assert(list[i] == before[i]);
            if j > at {
                assert(list[j] == before[j - 1]);
            } else if j < at {
                assert(list[j] == before[j]);
            }
        } else {
            assert(list[j] == before[j - 1]);
            if i > at {
                assert(list[i] == before[i - 1]);
            }
        }
    }
    assert forall|exe: Seq<char>, title: Seq<char>| #[trigger]
        lists_app(list, exe, title) <==> exe != own && first_of(more, exe) == Some(title) by {
        if lists_app(list, exe, title) {
            let i = choose|i: int|
                0 <= i < list.len() && (#[trigger] list[i]).exe@ == exe && list[i].title@ == title;
            if i < at {
                assert(before[i] == list[i]);
                assert(lists_app(before, exe, title));
            } else if i > at {
                assert(before[i - 1] == list[i]);
                assert(lists_app(before, exe, title));
            }
        }
        if exe != own && first_of(more, exe) == Some(title) {
            if first_of(done, exe) is Some {
                assert(lists_app(before, exe, title));
                let i = choose|i: int|
                    0 <= i < before.len() && (#[trigger] before[i]).exe@ == exe && before[i].title@
                        == title;
                if i < at {
                    assert(list[i] == before[i]);
                } else {
                    assert(list[i + 1] == before[i]);
                }
            } else {
                assert(list[at].exe@ == exe && list[at].title@ == title);
            }
        }
    }
}

/// What comes after the last backslash.
pub open spec fn file_part(path: Seq<char>) -> Seq<char>
    decreases path.len(),
{
    if path.len() == 0 || path.last() == '\\' {
        Seq::empty()
    } else {
        file_part(path.drop_last()).push(path.last())
    }
}

proof fn lemma_file_part(path: Seq<char>, from: int)
    requires
        0 <= from <= path.len(),
        from > 0 ==> path[from - 1] == '\\',
        forall|i: int| from <= i < path.len() ==> #[trigger] path[i] != '\\',
    ensures
        file_part(path) == path.skip(from),
    decreases path.len(),
{
    if path.len() == from {
        assert(path.skip(from) =~= Seq::<char>::empty());
    } else {
        let rest = path.drop_last();
        assert forall|i: int| from <= i < rest.len() implies #[trigger] rest[i] != '\\' by {
            assert(rest[i] == path[i]);
        }
        assert(from > 0 ==> rest[from - 1] == path[from - 1]);
        assert(path[path.len() - 1] != '\\');
        lemma_file_part(rest, from);
        assert(file_part(path) =~= path.skip(from));
    }
}

/// The name of a program, given the path of its file: in lower case, without
/// the directories.
pub fn exe_name(full_path: &str) -> (r: String)
    ensures
        r@ == unicode::str_lowercase_of(file_part(full_path@)),
{
    let chars: Vec<char> = chars_of(full_path);
    let mut from: usize = chars.len();
    while from > 0 && chars[from - 1] != '\\'
        invariant
            from <= chars@.len(),
            forall|i: int| from <= i < chars@.len() ==> #[trigger] chars@[i] != '\\',
        decreases from,
    {
        from -= 1;
    }
    proof {
        lemma_file_part(full_path@, from as int);
        assert(chars@.subrange(from as int, chars@.len() as int) =~= full_path@.skip(from as int));
    }
    text_between(&chars, from, chars.len()).as_str().to_lowercase()
}

/// The name of the program of the last window that was asked for.
#[derive(Debug)]
pub struct ExeCache {
    pub entry: Option<(usize, String)>,
}

impl View for ExeCache {
    type V = Option<(usize, Seq<char>)>;

    open spec fn view(&self) -> Option<(usize, Seq<char>)> {
        match self.entry {
            Some(e) => Some((e.0, e.1@)),
            None => None,
        }
    }
}

/// The name that is kept for a window; an empty one is none.
pub open spec fn usable(name: Seq<char>) -> Option<Seq<char>> {
    if name.len() == 0 {
        None
    } else {
        Some(name)
    }
}

impl ExeCache {
    /// Nothing is kept.
    pub fn new() -> (r: ExeCache)
        ensures
            r@ is None,
    {
        ExeCache { entry: None }
    }

    /// Whether the name of the program of a window is kept.
    pub fn knows(&self, window: usize) -> (r: bool)
        ensures
            r == (self@ matches Some(e) && e.0 == window),
    {
        match &self.entry {
            Some(e) => e.0 == window,
            None => false,
        }
    }

    /// Keeps the name of the program of a window, in place of any other; an
    /// unknown one is kept as empty.
    pub fn keep(&mut self, window: usize, name: Option<String>)
        ensures
            final(self)@ == Some(
                (
                    window,
                    match name {
                        Some(n) => n@,
                        None => Seq::<char>::empty(),
                    },
                ),
            ),
    {
        let text: String = match name {
            Some(n) => n,
            None => String::new(),
        };
        proof {
            if name is None {
                assert(text@ =~= Seq::<char>::empty());
            }
        }
        self.entry = Some((window, text));
    }

    /// The name of the program of a window, where it is kept and not empty.
    pub fn name(&self, window: usize) -> (r: Option<String>)
        ensures
            text::text_of(r) == (match self@ {
                Some(e) => if e.0 == window {
                    usable(e.1)
                } else {
                    None
                },
                None => None,
            }),
    {
        match &self.entry {
            Some(e) => if e.0 == window && e.1.as_str().unicode_len() > 0 {
                Some(e.1.clone())
            } else {
                None
            },
            None => None,
        }
    }
}

/// What was found out about the rights of the program in the foreground.
#[derive(Debug, Clone, Copy, PartialEq, Eq, Structural)]
pub enum Elevation {
    /// There is no window, or it belongs to no program.
    NoProgram,
    /// The program could not be asked.
    Denied,
    /// The program was asked; the answer came or did not.
    Asked { answered: bool, elevated: bool },
}

/// Whether the program in the foreground has more rights: it has where it says
/// so, and where it may not even be asked.
pub fn is_active_window_elevated(e: Elevation) -> (r: bool)
    ensures
        r == (e is Denied || (e matches Elevation::Asked { answered, elevated } && answered
            && elevated)),
{
    match e {
        Elevation::NoProgram => false,
        Elevation::Denied => true,
        Elevation::Asked { answered, elevated } => answered && elevated,
    }
}

} // verus!
