//! Where the configuration is, and how it is written.
use crate::text::{self, CharClass};
use vstd::prelude::*;

verus! {

/// Whether a word asks for the path of the configuration.
pub open spec fn asks_for_config(word: Seq<char>) -> bool {
    word == "-c"@ || word == "--config"@ || word == "--config-path"@
}

/// The path of the configuration that a command line names: the program, the option and the
/// path, and nothing else.
pub open spec fn config_argument(args: Seq<Seq<char>>) -> Option<Seq<char>> {
    if args.len() == 3 && asks_for_config(args[1]) {
        Some(args[2])
    } else {
        None
    }
}

/// Where the configuration is: where the command line says, else in the home directory.
/// Without either there is none.
pub fn config_dir(args: &Vec<String>, home: Option<&str>) -> (r: Option<String>)
    ensures
        match config_argument(text::views(args@)) {
            Some(path) => r matches Some(s) && s@ == path,
            None => match home {
                Some(h) => r matches Some(s) && s@ == h@ + "/.config/webshooter"@,
                None => r is None,
            },
        },
{
    let ghost all = text::views(args@);
    if args.len() == 3 {
        assert(all[1] == args@[1]@ && all[2] == args@[2]@);
        let word = args[1].as_str();
        if text::str_eq(word, "-c") || text::str_eq(word, "--config") || text::str_eq(
            word,
            "--config-path",
        ) {
            return Some(args[2].clone());
        }
    }
    match home {
        Some(home) => {
            let mut s = home.to_owned();
            s.append("/.config/webshooter");
            Some(s)
        },
        None => None,
    }
}

/// What is at the path of the configuration.
#[derive(Debug, Clone, Copy, PartialEq, Eq, Structural)]
pub enum DirState {
    Directory,
    Missing,
    NotADirectory,
    Unreadable,
}

/// What to do about it.
#[derive(Debug, Clone, Copy, PartialEq, Eq, Structural)]
pub enum DirStep {
    /// Use it.
    Use,
    /// Create it, then use it.
    Create,
    /// Use the directory that it lies in.
    UseParent,
    /// Report that it cannot be read.
    Fail,
}

/// What to do about the path of the configuration.
pub fn dir_step(state: DirState) -> (r: DirStep)
    ensures
        r == (match state {
            DirState::Directory => DirStep::Use,
            DirState::Missing => DirStep::Create,
            DirState::NotADirectory => DirStep::UseParent,
            DirState::Unreadable => DirStep::Fail,
        }),
        r is Use <==> state is Directory,
        r is Create <==> state is Missing,
        r is UseParent <==> state is NotADirectory,
{
    match state {
        DirState::Directory => DirStep::Use,
        DirState::Missing => DirStep::Create,
        DirState::NotADirectory => DirStep::UseParent,
        DirState::Unreadable => DirStep::Fail,
    }
}

/// The place of the first name that begins with `config`.
pub fn config_file(names: &Vec<String>) -> (r: Option<usize>)
    ensures
        match r {
            Some(i) => {
                &&& i < names@.len()
                &&& text::begins(names@[i as int]@, "config"@)
                &&& forall|j: int|
                    0 <= j < i ==> !text::begins((#[trigger] names@[j])@, "config"@)
            },
            None => forall|j: int|
                0 <= j < names@.len() ==> !text::begins((#[trigger] names@[j])@, "config"@),
        },
{
    let mut i: usize = 0;
    while i < names.len()
        invariant
            i <= names@.len(),
            forall|j: int| 0 <= j < i ==> !text::begins((#[trigger] names@[j])@, "config"@),
        decreases names@.len() - i,
    {
        if text::starts_with(names[i].as_str(), "config") {
            return Some(i);
        }
        i += 1;
    }
    None
}

/// Whether a configuration file says nothing: there is nothing but white space in it.
pub fn is_blank(contents: &str) -> (r: bool)
    ensures
        r == (text::trimmed(contents@, CharClass::Whitespace).len() == 0),
{
    text::trim(contents, CharClass::Whitespace).unicode_len() == 0
}

/// How a configuration is written.
#[derive(Debug, Clone, Copy, PartialEq, Eq, Structural)]
pub enum ConfigFormat {
    Toml,
    Yaml,
    Json,
}

/// How a configuration file of this name is written.
pub open spec fn format_of(name: Seq<char>) -> ConfigFormat {
    if text::ends(name, ".toml"@) {
        ConfigFormat::Toml
    } else if text::ends(name, ".yaml"@) || text::ends(name, ".yml"@) {
        ConfigFormat::Yaml
    } else {
        ConfigFormat::Json
    }
}

/// How a configuration file of this name is written.
pub fn config_format(name: &str) -> (r: ConfigFormat)
    ensures
        r == format_of(name@),
{
    if text::ends_with(name, ".toml") {
        ConfigFormat::Toml
    } else if text::ends_with(name, ".yaml") || text::ends_with(name, ".yml") {
        ConfigFormat::Yaml
    } else {
        ConfigFormat::Json
    }
}

/// The configuration's place is given by exactly three words: the program, one of the three
/// names of the option, and the place.
pub proof fn the_place_follows_the_option(args: Seq<Seq<char>>, place: Seq<char>)
    ensures
        config_argument(args) == Some(place) <==> {
            ||| args == seq![args[0], "-c"@, place]
            ||| args == seq![args[0], "--config"@, place]
            ||| args == seq![args[0], "--config-path"@, place]
        },
{
    if args.len() == 3 {
        assert(args =~= seq![args[0], args[1], args[2]]);
    }
}

/// The format goes by the end of the name: TOML, YAML under two endings, and JSON under any other.
pub proof fn names_tell_the_format(name: Seq<char>)
    ensures
        format_of(name + ".toml"@) == ConfigFormat::Toml,
        format_of(name + ".yaml"@) == ConfigFormat::Yaml,
        format_of(name + ".yml"@) == ConfigFormat::Yaml,
        format_of(name + ".json"@) == ConfigFormat::Json,
        format_of(name) == ConfigFormat::Toml <==> text::ends(name, ".toml"@),
        format_of(name) == ConfigFormat::Yaml <==> text::ends(name, ".yaml"@) || text::ends(
            name,
            ".yml"@,
        ),
{
    reveal_strlit(".toml");
    reveal_strlit(".yaml");
    reveal_strlit(".yml");
    reveal_strlit(".json");
    text::parts_are_found(name, ".toml"@, Seq::empty());
    text::parts_are_found(name, ".yaml"@, Seq::empty());
    text::parts_are_found(name, ".yml"@, Seq::empty());
    third_from_the_end(name + ".yaml"@, ".toml"@);
    third_from_the_end(name + ".yml"@, ".toml"@);
    third_from_the_end(name + ".json"@, ".toml"@);
    third_from_the_end(name + ".json"@, ".yaml"@);
    third_from_the_end(name + ".json"@, ".yml"@);
    third_from_the_end(name, ".toml"@);
    third_from_the_end(name, ".yaml"@);
    third_from_the_end(name, ".yml"@);
}

proof fn third_from_the_end(s: Seq<char>, part: Seq<char>)
    requires
        part.len() >= 3,
    ensures
        text::ends(s, part) ==> s.len() >= 3 && s[s.len() - 3] == part[part.len() - 3],
{
    if text::ends(s, part) {
        let n = part.len() as int;
        let t = s.subrange(s.len() - n, s.len() as int);
        assert(t == part);
        assert(t[n - 3] == s[s.len() - 3]);
    }
}

} // verus!
