use crate::command::argument::Argument;
use crate::command::arguments::delimited_string::DelimitedString;
use crate::command::arguments::Arguments;
use crate::command::commands::command::Command;
use vstd::prelude::*;

verus! {

/// Installing, updating and removing Flatpak applications.
pub struct Flatpak;

/// A positional argument with the given key.
pub open spec fn positional<'a>(s: &'a str) -> Argument<'a> {
    Argument {
        prefix: None,
        key: DelimitedString { value: s, delimiter: None },
        separator: None,
        value: None,
        postfix: None,
        delimiter: None,
    }
}

/// A `flatpak` command with the given positional arguments, separated by spaces.
pub open spec fn flatpak_command<'a>(c: Command<'a>, args: Seq<&'a str>) -> bool {
    &&& c.path == "flatpak"
    &&& c.current_dir is None
    &&& c.arguments.items_view() == args.map_values(|s: &'a str| positional(s))
    &&& c.arguments.separator_view()@ == seq![' ']
    &&& c.arguments.enclosing_view() is None
}

impl Flatpak {
    /// `flatpak install -y <app_id>`.
    pub fn install<'a>(app_id: &'a str) -> (r: Command<'a>)
        ensures
            flatpak_command(r, seq!["install", "-y", app_id]),
    {
        let mut args = Arguments::default();
        args.push(Argument::from("install"));
        args.push(Argument::from("-y"));
        args.push(Argument::from(app_id));
        let r = Command::new("flatpak", args);
        assert(r.arguments.items_view() =~= seq!["install", "-y", app_id].map_values(
            |s: &'a str| positional(s),
        ));
        r
    }

    /// `flatpak update -y`.
    pub fn update() -> (r: Command<'static>)
        ensures
            flatpak_command(r, seq!["update", "-y"]),
    {
        let mut args = Arguments::default();
        args.push(Argument::from("update"));
        args.push(Argument::from("-y"));
        let r = Command::new("flatpak", args);
        assert(r.arguments.items_view() =~= seq!["update", "-y"].map_values(
            |s: &'static str| positional(s),
        ));
        r
    }

    /// `flatpak uninstall -y --delete-data <app_id>`.
    pub fn uninstall<'a>(app_id: &'a str) -> (r: Command<'a>)
        ensures
            flatpak_command(r, seq!["uninstall", "-y", "--delete-data", app_id]),
    {
        let mut args = Arguments::default();
        args.push(Argument::from("uninstall"));
        args.push(Argument::from("-y"));
        args.push(Argument::from("--delete-data"));
        args.push(Argument::from(app_id));
        let r = Command::new("flatpak", args);
        assert(r.arguments.items_view() =~= seq!["uninstall", "-y", "--delete-data", app_id].map_values(
            |s: &'a str| positional(s),
        ));
        r
    }
}

} // verus!
