//! The command line of the program.
use vstd::prelude::*;

use crate::commands::texts;

verus! {

/// What the user asked for.
#[derive(Debug)]
pub struct Options {
    pub dry_run: bool,
    pub debug: bool,
    pub preview: bool,
    pub no_voice: bool,
    pub camera: String,
}

/// Position of the first argument with this text, from position `i` on.
pub open spec fn position_from(args: Seq<String>, text: Seq<char>, i: int) -> Option<int>
    decreases args.len() - i,
{
    if i < 0 || i >= args.len() {
        None
    } else if args[i]@ == text {
        Some(i)
    } else {
        position_from(args, text, i + 1)
    }
}

/// Whether an argument has this text.
pub open spec fn given(args: Seq<String>, text: Seq<char>) -> bool {
    texts(args).contains(text)
}

/// The camera that the arguments ask for: what follows the first `--camera`, and
/// camera 0 where nothing does.
pub open spec fn camera_of(args: Seq<String>) -> Seq<char> {
    match position_from(args, "--camera"@, 0) {
        Some(i) if i + 1 < args.len() => args[i + 1]@,
        _ => "0"@,
    }
}

/// Position of the first argument with this text.
fn position(args: &Vec<String>, text: &str) -> (found: Option<usize>)
    ensures
        match found {
            Some(i) => position_from(args@, text@, 0) == Some(i as int) && i < args@.len()
                && args@[i as int]@ == text@,
            None => position_from(args@, text@, 0) is None && forall|i: int|
                0 <= i < args@.len() ==> (#[trigger] args@[i])@ != text@,
        },
{
    let wanted = text.to_owned();
    let mut i: usize = 0;
    while i < args.len()
        invariant
            i <= args.len(),
            wanted@ == text@,
            position_from(args@, text@, 0) == position_from(args@, text@, i as int),
            forall|j: int| 0 <= j < i ==> (#[trigger] args@[j])@ != text@,
        decreases args.len() - i,
    {
        if args[i] == wanted {
            return Some(i);
        }
        i = i + 1;
    }
    None
}

/// Whether an argument has this text.
fn has_flag(args: &Vec<String>, text: &str) -> (result: bool)
    ensures
        result == given(args@, text@),
{
    match position(args, text) {
        Some(i) => {
            assert(texts(args@)[i as int] == text@);
            true
        },
        None => {
            assert forall|i: int| 0 <= i < texts(args@).len() implies texts(args@)[i] != text@ by {
                assert(args@[i]@ != text@);
            }
            false
        },
    }
}

impl Options {
    /// Reads the arguments of the program. Unknown ones are ignored.
    pub fn parse(args: &Vec<String>) -> (options: Options)
        ensures
            options.dry_run == given(args@, "--dry-run"@),
            options.debug == given(args@, "--debug"@),
            options.preview == given(args@, "--preview"@),
            options.no_voice == given(args@, "--no-voice"@),
            options.camera@ == camera_of(args@),
    {
        let camera = match position(args, "--camera") {
            Some(i) => if i < args.len() - 1 {
                args[i + 1].clone()
            } else {
                "0".to_owned()
            },
            None => "0".to_owned(),
        };
        Options {
            dry_run: has_flag(args, "--dry-run"),
            debug: has_flag(args, "--debug"),
            preview: has_flag(args, "--preview"),
            no_voice: has_flag(args, "--no-voice"),
            camera,
        }
    }

    /// The arguments that start the hand tracker.
    pub open spec fn tracker_line(self) -> Seq<Seq<char>> {
        seq!["tracker.py"@, "--camera"@, self.camera@] + if self.preview {
            seq!["--preview"@]
        } else {
            Seq::empty()
        }
    }

    /// The arguments that start the hand tracker.
    pub fn tracker_args(&self) -> (args: Vec<String>)
        ensures
            texts(args@) == self.tracker_line(),
    {
        let mut args = vec!["tracker.py".to_owned(), "--camera".to_owned(), self.camera.clone()];
        assert(texts(args@) =~= seq!["tracker.py"@, "--camera"@, self.camera@]);
        if self.preview {
            args.push("--preview".to_owned());
        }
        assert(texts(args@) =~= self.tracker_line());
        args
    }
}

proof fn lemma_position(args: Seq<String>, text: Seq<char>, k: int, i: int)
    requires
        0 <= k <= i < args.len(),
        args[i]@ == text,
        forall|x: int| k <= x < i ==> (#[trigger] args[x])@ != text,
    ensures
        position_from(args, text, k) == Some(i),
    decreases i - k,
{
    if k < i {
        assert(args[k]@ != text);
        lemma_position(args, text, k + 1, i);
    }
}

proof fn lemma_no_position(args: Seq<String>, text: Seq<char>, k: int)
    requires
        0 <= k <= args.len(),
        forall|x: int| k <= x < args.len() ==> (#[trigger] args[x])@ != text,
    ensures
        position_from(args, text, k) is None,
    decreases args.len() - k,
{
    if k < args.len() {
        assert(args[k]@ != text);
        lemma_no_position(args, text, k + 1);
    }
}

/// The camera is what follows the first `--camera`; without one, or with nothing behind
/// it, it is camera 0.
pub proof fn law_camera_follows_its_option(args: Seq<String>, i: int)
    requires
        0 <= i < args.len(),
        args[i]@ == "--camera"@,
        forall|x: int| 0 <= x < i ==> (#[trigger] args[x])@ != "--camera"@,
    ensures
        i + 1 < args.len() ==> camera_of(args) == args[i + 1]@,
        i + 1 == args.len() ==> camera_of(args) == "0"@,
{
    lemma_position(args, "--camera"@, 0, i);
}

/// Without `--camera` it is camera 0.
pub proof fn law_first_camera_by_default(args: Seq<String>)
    requires
        forall|x: int| 0 <= x < args.len() ==> (#[trigger] args[x])@ != "--camera"@,
    ensures
        camera_of(args) == "0"@,
{
    lemma_no_position(args, "--camera"@, 0);
}

/// An option is given if some argument is it.
pub proof fn law_options_are_given_anywhere(args: Seq<String>, text: Seq<char>)
    ensures
        given(args, text) <==> exists|i: int| 0 <= i < args.len() && (#[trigger] args[i])@ == text,
{
    let all = texts(args);
    if given(args, text) {
        let i = choose|i: int| 0 <= i < all.len() && all[i] == text;
        assert(args[i]@ == text);
    }
    if exists|i: int| 0 <= i < args.len() && (#[trigger] args[i])@ == text {
        let i = choose|i: int| 0 <= i < args.len() && (#[trigger] args[i])@ == text;
        assert(all[i] == text);
    }
}

/// The tracker is started with its camera, and with a preview if one was asked for.
pub proof fn law_tracker_is_told_its_camera(options: Options)
    ensures
        options.tracker_line().len() == if options.preview {
            4int
        } else {
            3
        },
        options.tracker_line()[0] == "tracker.py"@,
        options.tracker_line()[1] == "--camera"@,
        options.tracker_line()[2] == options.camera@,
        options.preview ==> options.tracker_line()[3] == "--preview"@,
{
}

} // verus!
