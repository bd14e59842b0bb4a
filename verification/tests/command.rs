use omni::command::command::{Command as PathCommand, CurrentDirectoryPath, ExecutablePath};
use std::path::{Path, PathBuf};
use omni::command::argument::Argument;
use omni::command::arguments::argument_builder::ArgumentBuilder;
use omni::command::arguments::delimited_string::{DelimitedString, Delimiter};
use omni::command::arguments::Arguments;
use omni::command::base::{AffixPair, AffixedString, ArgumentList, Formatting, Key, KeyValuePair, Value};
use omni::command::commands::command::Command;
use omni::command::delimiter::{DelimiterKey, DelimiterString};
use std::borrow::Cow;

#[test]
fn delimiter_lengths_and_quotes() {
    let d = Delimiter::symmetrical("\"");
    assert_eq!(d.len(), 2);
    assert!(d.is_quote());
    assert!(!d.is_empty());
    assert!(Delimiter::new(Some("'"), Some("'")).is_quote());
    assert!(!Delimiter::new(Some("\""), Some("'")).is_quote());
    assert!(!Delimiter::new(Some("["), Some("]")).is_quote());
    assert!(Delimiter::new(None, None).is_empty());
    // byte lengths, not characters
    assert_eq!(Delimiter::new(Some("«"), None).len(), 2);
}

#[test]
fn delimited_string_forms() {
    let plain = DelimitedString::plain("abc");
    assert_eq!(plain.len(), 3);
    assert_eq!(plain.to_string(), "abc");
    assert!(!plain.is_quoted());
    assert_eq!(DelimitedString::new(None, "x", None).delimiter, None);
    let quoted = DelimitedString::new(Some("\""), "x y", Some("\""));
    assert!(quoted.is_quoted());
    assert_eq!(quoted.len(), 5);
    assert_eq!(quoted.to_string(), "\"x y\"");
    let half = DelimitedString::new(Some("<"), "v", None);
    assert_eq!(half.to_string(), "<v");
    let with = DelimitedString::with_delimiter("", Delimiter::new(None, None));
    assert!(with.is_empty());
    let from: DelimitedString = "k".into();
    assert_eq!(from, DelimitedString::plain("k"));
}

#[test]
fn argument_queries() {
    let long = Argument::builder().prefix("--").key("release").build().unwrap();
    assert!(long.is_long_flag());
    assert!(!long.is_short_flag());
    assert!(long.is_flag());
    assert!(!long.is_positional());
    assert_eq!(long.key_str(), "release");
    assert_eq!(long.value_str(), None);
    assert_eq!(long.value_or("fallback"), "fallback");

    let slash = Argument::builder().prefix("/").key("q").build().unwrap();
    assert!(slash.is_short_flag());

    let pos = Argument::from("file.txt");
    assert!(pos.is_positional());
    assert!(!pos.is_flag());
    assert_eq!(pos.render(), "file.txt");

    assert!(ArgumentBuilder::new().prefix("-").build().is_none());
}

#[test]
fn argument_builder_variants() {
    let arg = ArgumentBuilder::new()
        .prefix("-")
        .key(DelimitedString::new(Some("{"), "k", Some("}")))
        .separator(":")
        .value("v")
        .with_delimiter(Delimiter::new(Some("("), None))
        .build()
        .unwrap();
    assert_eq!(arg.render(), "(-{k}:v");
    assert_eq!(arg.value_or("z"), "v");
}

#[test]
fn arg_tokens() {
    let spaced = Argument::builder().prefix("-").key("v").separator(" ").value("/var/sock").build().unwrap();
    assert_eq!(spaced.to_arg_tokens(), vec!["-v".to_string(), "/var/sock".to_string()]);

    let eq = Argument::builder()
        .prefix("--")
        .key("env")
        .separator("=")
        .quoted_value("NODE_ENV=production")
        .build()
        .unwrap();
    assert_eq!(eq.to_arg_tokens(), vec!["--env=NODE_ENV=production".to_string()]);

    let flag = Argument::builder().prefix("--").key("release").build().unwrap();
    assert_eq!(flag.to_arg_tokens(), vec!["--release".to_string()]);

    let pos = Argument::builder().key("path").value("x").build().unwrap();
    assert_eq!(pos.to_arg_tokens(), vec!["path".to_string()]);

    let odd = Argument::builder().prefix("-").key("k").value("x").build().unwrap();
    assert_eq!(odd.to_arg_tokens(), vec!["k".to_string()]);

    let tab = Argument::builder().prefix("-").key("o").separator("\t ").value("f").build().unwrap();
    assert_eq!(tab.to_arg_tokens(), vec!["-o".to_string(), "f".to_string()]);
}

#[test]
fn arguments_render() {
    let mut args = Arguments::new(", ");
    assert_eq!(args.render(), "");
    args.push(Argument::from("a"));
    assert_eq!(args.render(), "a");
    let args = args
        .with_argument(Argument::builder().prefix("--").key("b").build().unwrap())
        .with_enclosing_delimiter("[", "]");
    assert_eq!(args.render(), "[a, --b]");
    assert_eq!(args.items().len(), 2);
    assert_eq!(args.to_arg_strings(), vec!["a".to_string(), "--b".to_string()]);
    assert_eq!(args.rendered_len(), 8);

    let mut spaced = Arguments::default();
    spaced.push(Argument::from("x"));
    spaced.push(Argument::from("y"));
    assert_eq!(spaced.render(), "x y");
    spaced.set_item_separator("|");
    assert_eq!(spaced.render(), "x|y");
    // no text at all without arguments, even with an enclosing delimiter
    assert_eq!(Arguments::new(" ").with_enclosing_delimiter("(", ")").render(), "");
}

#[test]
fn command_render_and_len() {
    let mut args = Arguments::default();
    args.push(Argument::from("install"));
    args.push(Argument::builder().prefix("-").key("y").build().unwrap());
    let cmd = Command::new("flatpak", args).current_dir("/tmp");
    assert_eq!(cmd.render(), "flatpak install -y");
    assert_eq!(cmd.len(), 18);
    assert_eq!(cmd.current_dir, Some("/tmp"));
    let plain = Command::plain("ls");
    assert_eq!(plain.render(), "ls");
    assert_eq!(plain.len(), 2);
    assert!(!plain.is_empty());
    assert!(Command::plain("").is_empty());
}

#[test]
fn delimiter_string_delimit() {
    let bare: DelimiterString<DelimiterKey> = DelimiterString::new("key", None, Some(""));
    assert!(matches!(bare.delimit(), Cow::Borrowed("key")));
    let both: DelimiterString<DelimiterKey> = DelimiterString::new("key", Some("<"), Some(">"));
    assert_eq!(both.delimit(), "<key>");
    let front: DelimiterString<DelimiterKey> = DelimiterString::new("key", Some("-"), None);
    assert_eq!(front.delimit(), "-key");
    assert!(matches!(front.delimit(), Cow::Owned(_)));
    let back: DelimiterString<DelimiterKey> = DelimiterString::new("key", Some(""), Some("="));
    assert_eq!(back.clone().delimit(), "key=");
}

#[test]
fn base_rendering() {
    let key = Key(AffixedString::new("env"));
    let value = Value(AffixedString::new("prod").with_affix("'"));
    assert_eq!(value.to_string(), "'prod'");
    assert_eq!(key.to_string(), "env");
    assert!(!value.is_empty());
    assert!(Value(AffixedString::new("")).is_empty());

    let formatting = Formatting::default()
        .with_separator("=")
        .with_affix(AffixPair { prefix: "--", postfix: "" });
    let arg = omni::command::base::Argument { key_value_pair: KeyValuePair { key, value }, formatting };
    assert_eq!(arg.to_string(), "--env='prod'");

    let flag = omni::command::base::Argument {
        key_value_pair: KeyValuePair { key: Key(AffixedString::new("v")), value: Value::default() },
        formatting,
    };
    // no separator when the value is empty
    assert_eq!(flag.to_string(), "--v");

    let list = ArgumentList {
        arguments: vec![arg, flag],
        formatting: Formatting::default()
            .with_separator(" ")
            .with_affix(AffixPair { prefix: "(", postfix: ")" }),
    };
    assert_eq!(list.to_string(), "(--env='prod' --v)");
    assert_eq!(ArgumentList::default().to_string(), "");
    assert_eq!(
        AffixedString::new("x").with_separate_affix("<", ">").to_string(),
        "<x>"
    );
    assert!(AffixedString::new("").is_empty());
}

#[test]
fn path_command() {
    let dir = CurrentDirectoryPath(PathBuf::from("/tmp/work"));
    let exe = ExecutablePath(PathBuf::from("/usr/bin/flatpak"));
    assert_eq!(AsRef::<Path>::as_ref(&dir), Path::new("/tmp/work"));
    assert_eq!(AsRef::<Path>::as_ref(&exe), Path::new("/usr/bin/flatpak"));
    let cmd = PathCommand::new(dir.clone(), exe, ArgumentList::default());
    assert_eq!(cmd.clone(), cmd);
    assert_eq!(cmd.current_directory, dir);
}

#[test]
fn arg_tokens_separator_keeps_value_whole() {
    let env = Argument::builder()
        .prefix("--")
        .key("env")
        .separator("=")
        .value("NODE_ENV=production")
        .build()
        .unwrap();
    assert_eq!(env.to_arg_tokens(), vec!["--env=NODE_ENV=production".to_string()]);
}

#[test]
fn delimiter_adds_its_length_when_rendered() {
    let d = Delimiter::new(Some("«"), Some("]"));
    let ds = DelimitedString::with_delimiter("wert", d);
    assert_eq!(ds.to_string().len(), "wert".len() + d.len());
    assert_eq!(ds.len(), ds.to_string().len());
    assert_eq!(ds.len(), 7);
    let empty = DelimitedString::with_delimiter("", Delimiter::new(None, None));
    assert!(empty.is_empty());
    assert_eq!(empty.to_string(), "");
}

#[test]
fn plain_equals_new_and_from() {
    let p = DelimitedString::plain("wert");
    assert_eq!(p, DelimitedString::new(None, "wert", None));
    assert_eq!(p, DelimitedString::from("wert"));
    assert!(p.delimiter.is_none());
    assert_eq!(p.to_string(), "wert");
    assert_eq!(p.len(), 4);
    assert!(!p.is_quoted());
}

#[test]
fn command_len_is_rendered_len() {
    let mut args = Arguments::default();
    args.push(Argument::from("run"));
    args.push(Argument::from("org.gnome.Maps"));
    let cmd = Command::new("flätpak", args);
    assert_eq!(cmd.len(), cmd.render().len());
    assert_eq!(cmd.len(), "flätpak".len() + 1 + "run org.gnome.Maps".len());
    let plain = Command::plain("ls");
    assert_eq!(plain.len(), plain.render().len());
}

#[test]
fn base_defaults_are_empty() {
    let f = Formatting::default();
    assert_eq!(f.separator, "");
    assert_eq!(f.affix, AffixPair { prefix: "", postfix: "" });
    assert_eq!(AffixPair::default(), AffixPair { prefix: "", postfix: "" });
    assert_eq!(AffixedString::default(), AffixedString::new(""));
    assert_eq!(Key::default(), Key(AffixedString::new("")));
    assert_eq!(Value::default(), Value(AffixedString::new("")));
    assert_eq!(
        KeyValuePair::default(),
        KeyValuePair { key: Key(AffixedString::new("")), value: Value(AffixedString::new("")) }
    );
    assert_eq!(omni::command::base::Argument::default().to_string(), "");
    assert!(ArgumentList::default().arguments.is_empty());

    let kv = KeyValuePair { key: Key(AffixedString::new("key")), value: Value(AffixedString::new("value")) };
    let f0 = Formatting::default().with_affix(AffixPair { prefix: "--", postfix: "" });
    let glued = omni::command::base::Argument { key_value_pair: kv, formatting: f0 };
    assert_eq!(glued.to_string(), "--keyvalue");
    let split = omni::command::base::Argument { key_value_pair: kv, formatting: f0.with_separator("=") };
    assert_eq!(split.to_string(), "--key=value");

    let empty_value = omni::command::base::Argument {
        key_value_pair: KeyValuePair { key: Key(AffixedString::new("k")), value: Value::default() },
        formatting: Formatting::default().with_separator("="),
    };
    assert_eq!(empty_value.to_string(), "k");
}

#[test]
fn builder_takes_delimited_key_and_value() {
    let key = DelimitedString::new(Some("'"), "my key", Some("'"));
    let value = DelimitedString::with_delimiter("v", Delimiter::new(Some("<"), Some(">")));
    let arg = ArgumentBuilder::new()
        .prefix("--")
        .delimited_key(key)
        .separator("=")
        .delimited_value(value)
        .build()
        .unwrap();
    assert_eq!(arg.key, key);
    assert_eq!(arg.value, Some(value));
    assert_eq!(arg.render(), "--'my key'=<v>");
}
