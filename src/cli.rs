//! The command line: `<program> <filename> [color]`.
use vstd::prelude::*;
use vstd::string::*;

verus! {

/// The color used when none is given: opaque black.
pub open spec fn default_color() -> Seq<char> {
    "#000000"@
}

/// What one run is asked to do: the base name of every file it touches,
/// and the color of the result.
pub struct Invocation {
    pub filename: String,
    pub color: String,
}

impl View for Invocation {
    type V = (Seq<char>, Seq<char>);

    open spec fn view(&self) -> (Seq<char>, Seq<char>) {
        (self.filename@, self.color@)
    }
}

/// The text of each argument, the program's name first.
pub open spec fn arg_texts(args: Seq<String>) -> Seq<Seq<char>> {
    args.map_values(|a: String| a@)
}

/// The run that the arguments `a` ask for: none unless a file name, and
/// perhaps a color, follow the program's name.
pub open spec fn invocation_of(a: Seq<Seq<char>>) -> Option<(Seq<char>, Seq<char>)> {
    if a.len() == 2 {
        Some((a[1], default_color()))
    } else if a.len() == 3 {
        Some((a[1], a[2]))
    } else {
        None
    }
}

/// Reads the file name and the optional color from the arguments, the
/// program's name first. Gives `None`, the usage error, for any other count.
pub fn parse_args(args: &Vec<String>) -> (r: Option<Invocation>)
    ensures
        r is Some <==> (args.len() == 2 || args.len() == 3),
        r matches Some(inv) ==> invocation_of(arg_texts(args@)) == Some(inv@),
        r is None ==> invocation_of(arg_texts(args@)) is None,
{
    if args.len() != 2 && args.len() != 3 {
        return None;
    }
    let filename = args[1].clone();
    let color = if args.len() == 3 {
        args[2].clone()
    } else {
        String::from_str("#000000")
    };
    Some(Invocation { filename, color })
}

/// Leaving the color out is the same as asking for `#000000`.
pub proof fn lemma_default_color(program: Seq<char>, filename: Seq<char>)
    ensures
        invocation_of(seq![program, filename]) == invocation_of(
            seq![program, filename, default_color()],
        ),
{
}

} // verus!
