use vstd::prelude::*;

verus! {

/// The argv of `flatpak install`, built option by option; the application id
/// comes last.
pub struct FlatpakInstall<'a> {
    app_id: &'a str,
    raw_args: Vec<&'a str>,
}

impl<'a> FlatpakInstall<'a> {
    /// The application to install.
    pub closed spec fn app_view(&self) -> &'a str {
        self.app_id
    }

    /// The arguments so far.
    pub closed spec fn args(&self) -> Seq<&'a str> {
        self.raw_args@
    }

    /// Starts with the `install` subcommand.
    pub fn new(app_id: &'a str) -> (r: Self)
        ensures
            r.app_view() == app_id,
            r.args() == seq!["install"],
    {
        let mut raw_args: Vec<&'a str> = Vec::new();
        raw_args.push("install");
        assert(raw_args@ =~= seq!["install"]);
        Self { app_id, raw_args }
    }

    // --- flags without a value ---

    pub fn help(self) -> (r: Self)
        ensures
            r.app_view() == self.app_view(),
            r.args() == self.args().push("--help"),
    {
        let mut s = self;
        s.raw_args.push("--help");
        s
    }

    pub fn user(self) -> (r: Self)
        ensures
            r.app_view() == self.app_view(),
            r.args() == self.args().push("--user"),
    {
        let mut s = self;
        s.raw_args.push("--user");
        s
    }

    pub fn system(self) -> (r: Self)
        ensures
            r.app_view() == self.app_view(),
            r.args() == self.args().push("--system"),
    {
        let mut s = self;
        s.raw_args.push("--system");
        s
    }

    pub fn no_pull(self) -> (r: Self)
        ensures
            r.app_view() == self.app_view(),
            r.args() == self.args().push("--no-pull"),
    {
        let mut s = self;
        s.raw_args.push("--no-pull");
        s
    }

    pub fn no_deploy(self) -> (r: Self)
        ensures
            r.app_view() == self.app_view(),
            r.args() == self.args().push("--no-deploy"),
    {
        let mut s = self;
        s.raw_args.push("--no-deploy");
        s
    }

    pub fn no_related(self) -> (r: Self)
        ensures
            r.app_view() == self.app_view(),
            r.args() == self.args().push("--no-related"),
    {
        let mut s = self;
        s.raw_args.push("--no-related");
        s
    }

    pub fn no_deps(self) -> (r: Self)
        ensures
            r.app_view() == self.app_view(),
            r.args() == self.args().push("--no-deps"),
    {
        let mut s = self;
        s.raw_args.push("--no-deps");
        s
    }

    pub fn no_auto_pin(self) -> (r: Self)
        ensures
            r.app_view() == self.app_view(),
            r.args() == self.args().push("--no-auto-pin"),
    {
        let mut s = self;
        s.raw_args.push("--no-auto-pin");
        s
    }

    pub fn no_static_deltas(self) -> (r: Self)
        ensures
            r.app_view() == self.app_view(),
            r.args() == self.args().push("--no-static-deltas"),
    {
        let mut s = self;
        s.raw_args.push("--no-static-deltas");
        s
    }

    pub fn runtime(self) -> (r: Self)
        ensures
            r.app_view() == self.app_view(),
            r.args() == self.args().push("--runtime"),
    {
        let mut s = self;
        s.raw_args.push("--runtime");
        s
    }

    pub fn app(self) -> (r: Self)
        ensures
            r.app_view() == self.app_view(),
            r.args() == self.args().push("--app"),
    {
        let mut s = self;
        s.raw_args.push("--app");
        s
    }

    pub fn include_sdk(self) -> (r: Self)
        ensures
            r.app_view() == self.app_view(),
            r.args() == self.args().push("--include-sdk"),
    {
        let mut s = self;
        s.raw_args.push("--include-sdk");
        s
    }

    pub fn include_debug(self) -> (r: Self)
        ensures
            r.app_view() == self.app_view(),
            r.args() == self.args().push("--include-debug"),
    {
        let mut s = self;
        s.raw_args.push("--include-debug");
        s
    }

    pub fn bundle(self) -> (r: Self)
        ensures
            r.app_view() == self.app_view(),
            r.args() == self.args().push("--bundle"),
    {
        let mut s = self;
        s.raw_args.push("--bundle");
        s
    }

    pub fn from(self) -> (r: Self)
        ensures
            r.app_view() == self.app_view(),
            r.args() == self.args().push("--from"),
    {
        let mut s = self;
        s.raw_args.push("--from");
        s
    }

    pub fn image(self) -> (r: Self)
        ensures
            r.app_view() == self.app_view(),
            r.args() == self.args().push("--image"),
    {
        let mut s = self;
        s.raw_args.push("--image");
        s
    }

    pub fn assumeyes(self) -> (r: Self)
        ensures
            r.app_view() == self.app_view(),
            r.args() == self.args().push("--assumeyes"),
    {
        let mut s = self;
        s.raw_args.push("--assumeyes");
        s
    }

    pub fn reinstall(self) -> (r: Self)
        ensures
            r.app_view() == self.app_view(),
            r.args() == self.args().push("--reinstall"),
    {
        let mut s = self;
        s.raw_args.push("--reinstall");
        s
    }

    pub fn noninteractive(self) -> (r: Self)
        ensures
            r.app_view() == self.app_view(),
            r.args() == self.args().push("--noninteractive"),
    {
        let mut s = self;
        s.raw_args.push("--noninteractive");
        s
    }

    pub fn or_update(self) -> (r: Self)
        ensures
            r.app_view() == self.app_view(),
            r.args() == self.args().push("--or-update"),
    {
        let mut s = self;
        s.raw_args.push("--or-update");
        s
    }

    pub fn verbose(self) -> (r: Self)
        ensures
            r.app_view() == self.app_view(),
            r.args() == self.args().push("--verbose"),
    {
        let mut s = self;
        s.raw_args.push("--verbose");
        s
    }

    pub fn ostree_verbose(self) -> (r: Self)
        ensures
            r.app_view() == self.app_view(),
            r.args() == self.args().push("--ostree-verbose"),
    {
        let mut s = self;
        s.raw_args.push("--ostree-verbose");
        s
    }

    // --- options with a value, as two arguments ---

    pub fn installation(self, value: &'a str) -> (r: Self)
        ensures
            r.app_view() == self.app_view(),
            r.args() == self.args().push("--installation").push(value),
    {
        let mut s = self;
        s.raw_args.push("--installation");
        s.raw_args.push(value);
        s
    }

    pub fn arch(self, value: &'a str) -> (r: Self)
        ensures
            r.app_view() == self.app_view(),
            r.args() == self.args().push("--arch").push(value),
    {
        let mut s = self;
        s.raw_args.push("--arch");
        s.raw_args.push(value);
        s
    }

    pub fn gpg_file(self, value: &'a str) -> (r: Self)
        ensures
            r.app_view() == self.app_view(),
            r.args() == self.args().push("--gpg-file").push(value),
    {
        let mut s = self;
        s.raw_args.push("--gpg-file");
        s.raw_args.push(value);
        s
    }

    pub fn subpath(self, value: &'a str) -> (r: Self)
        ensures
            r.app_view() == self.app_view(),
            r.args() == self.args().push("--subpath").push(value),
    {
        let mut s = self;
        s.raw_args.push("--subpath");
        s.raw_args.push(value);
        s
    }

    pub fn sideload_repo(self, value: &'a str) -> (r: Self)
        ensures
            r.app_view() == self.app_view(),
            r.args() == self.args().push("--sideload-repo").push(value),
    {
        let mut s = self;
        s.raw_args.push("--sideload-repo");
        s.raw_args.push(value);
        s
    }

    /// The finished argv: the arguments, then the application id.
    pub fn finish(self) -> (r: Vec<&'a str>)
        ensures
            r@ == self.args().push(self.app_view()),
    {
        let mut s = self;
        s.raw_args.push(s.app_id);
        s.raw_args
    }
}

} // verus!
