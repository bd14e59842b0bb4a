use omni::flatpak::flatpak::Flatpak;
use omni::flatpak::flatpak_install_test::FlatpakInstall;
use omni::flatpak::flatpak_list::{FlatpakListType, IntoFlatpakListOptions};

#[test]
fn flatpak_commands() {
    assert_eq!(Flatpak::install("org.gimp.GIMP").render(), "flatpak install -y org.gimp.GIMP");
    assert_eq!(Flatpak::update().render(), "flatpak update -y");
    assert_eq!(
        Flatpak::uninstall("org.gimp.GIMP").render(),
        "flatpak uninstall -y --delete-data org.gimp.GIMP"
    );
}

#[test]
fn flatpak_list_command() {
    assert_eq!(
        Flatpak::list(FlatpakListType::User).render(),
        "flatpak list --columns=application --user"
    );
    assert_eq!(
        Flatpak::list([FlatpakListType::App, FlatpakListType::System]).render(),
        "flatpak list --columns=application --app --system"
    );
    let none: &[FlatpakListType] = &[];
    assert_eq!(Flatpak::list(none).render(), "flatpak list --columns=application");
    assert_eq!(
        Flatpak::list(vec![FlatpakListType::All, FlatpakListType::Runtime]).render(),
        "flatpak list --columns=application --all --runtime"
    );
}

#[test]
fn list_flags() {
    assert_eq!(FlatpakListType::All.as_flag(), "--all");
    assert_eq!(FlatpakListType::User.as_flag(), "--user");
    assert_eq!(FlatpakListType::System.as_flag(), "--system");
    assert_eq!(FlatpakListType::App.as_flag(), "--app");
    assert_eq!(FlatpakListType::Runtime.as_flag(), "--runtime");
    assert_eq!(FlatpakListType::App.into_options(), vec![FlatpakListType::App]);
}

#[test]
fn parse_list_output() {
    let out = "org.a.App\n  org.b.App  \r\n\n\t\norg.c.App";
    assert_eq!(
        Flatpak::parse_list(out),
        vec!["org.a.App".to_string(), "org.b.App".to_string(), "org.c.App".to_string()]
    );
    assert!(Flatpak::parse_list("").is_empty());
    assert!(Flatpak::parse_list("\n \n").is_empty());
    assert_eq!(Flatpak::parse_list("x\n"), vec!["x".to_string()]);
    assert_eq!(Flatpak::parse_list("ä b\u{3000}"), vec!["ä b".to_string()]);
}

#[test]
fn install_argv() {
    let argv = FlatpakInstall::new("org.x.App").user().no_deps().arch("x86_64").assumeyes().finish();
    assert_eq!(argv, vec!["install", "--user", "--no-deps", "--arch", "x86_64", "--assumeyes", "org.x.App"]);
    let all = FlatpakInstall::new("id")
        .help()
        .system()
        .no_pull()
        .no_deploy()
        .no_related()
        .no_auto_pin()
        .no_static_deltas()
        .runtime()
        .app()
        .include_sdk()
        .include_debug()
        .bundle()
        .from()
        .image()
        .reinstall()
        .noninteractive()
        .or_update()
        .verbose()
        .ostree_verbose()
        .installation("inst")
        .gpg_file("g")
        .subpath("s")
        .sideload_repo("r")
        .finish();
    assert_eq!(all.len(), 1 + 19 + 8 + 1);
    assert_eq!(all.last(), Some(&"id"));
    assert_eq!(all[1], "--help");
}
