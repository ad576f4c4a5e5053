use uwe::buffer::PageBuffer;
use uwe::collections::{collections_update, pages_to_render, Database};
use uwe::hook::{collect, command, Hook, Phase};
use uwe::invalidation::{
    extension_of, file_stem_of, find_page_href, get_invalidation, get_rule, layout_pages, page_paths,
    plan, rule_plan, target, Action, Invalidation, Kind, Locations, PageInfo, RuleStep, Step,
    Strategy, Target,
};
use uwe::ipc::{RequestEvent, Request, Response, ResponseEvent, SocketFile};
use uwe::manifest::{Manifest, Timestamp};
use uwe::menu::{end_list, pages_list, pages_menu, start_list};
use uwe::options::prefix;
use uwe::project::{Member, ProjectResult};
use uwe::redirect::content;
use uwe::render::{compile_filter, path_filter, search_url, RenderOptions, RenderTarget};
use uwe::updater::{get_env_content, get_source_env, profile_files, profile_update, VersionInfo};

fn t(secs: u64) -> Timestamp {
    Timestamp { secs, nanos: 0 }
}

#[test]
fn manifest_tracks_build_times() {
    let mut m = Manifest::new("/site/build/.uwe-build.json".to_string());
    assert_eq!(m.file(), "/site/build/.uwe-build.json");
    assert!(!m.contains("a.md"));
    m.touch("a.md", Some(t(10)));
    assert!(m.contains("./a.md") == false);
    assert!(m.contains("a.md"));
    assert_eq!(m.entry("a.md"), Some(t(10)));
    m.touch("a.md", None);
    assert_eq!(m.entry("a.md"), Some(t(10)));
    m.touch("a//md/../a.md", Some(t(1)));
    m.update(&vec![("a.md".to_string(), Some(t(20))), ("b.md".to_string(), None), ("c.md".to_string(), Some(t(5)))]);
    assert_eq!(m.entry("a.md"), Some(t(20)));
    assert!(!m.contains("b.md"));
    assert_eq!(m.entries().len(), 3);
}

#[test]
fn dirty_files_are_built_again() {
    let mut m = Manifest::new("m.json".to_string());
    m.touch("a.md", Some(t(10)));
    assert!(m.is_dirty("a.md", true, Some(t(10)), true));
    assert!(m.is_dirty("a.md", false, Some(t(10)), false));
    assert!(!m.is_dirty("a.md", true, Some(t(10)), false));
    assert!(m.is_dirty("a.md", true, Some(Timestamp { secs: 10, nanos: 1 }), false));
    assert!(!m.is_dirty("a.md", true, None, false));
    assert!(!m.is_dirty("new.md", true, Some(t(99)), false));
}

#[test]
fn a_touched_file_is_clean_until_modified() {
    let mut m = Manifest::new("m.json".to_string());
    m.touch("p.md", Some(t(42)));
    assert!(!m.is_dirty("p.md", true, Some(t(42)), false));
}

fn locations() -> Locations {
    Locations {
        config_file: "/s/site.toml".to_string(),
        layouts: "/s/site/layouts".to_string(),
        partials: "/s/site/partials".to_string(),
        includes: Some("/s/site/includes".to_string()),
        build_output: "/s/build".to_string(),
        assets: "/s/site/assets".to_string(),
        collections: "/s/site/collections".to_string(),
        collection_sources: vec![("posts".to_string(), "/s/site/collections/posts".to_string())],
        template_extension: "hbs".to_string(),
        hooks: vec![vec!["/s/site/assets/app.js".to_string()]],
    }
}

#[test]
fn changed_files_are_classified_by_location() {
    let loc = locations();
    assert_eq!(target(&loc, "/s/site/assets/app.js", false), Target::Hook(0));
    assert_eq!(target(&loc, "/s/site.toml", false), Target::Ignore);
    assert_eq!(target(&loc, "/s/site/layouts/main.hbs", false), Target::Layout);
    assert_eq!(target(&loc, "/s/site/partials/nav.hbs", false), Target::Partial);
    assert_eq!(target(&loc, "/s/site/includes/footer.md", true), Target::Include);
    assert_eq!(target(&loc, "/s/site/docs/page.hbs", true), Target::Template);
    assert_eq!(target(&loc, "/s/build/index.html", true), Target::Ignore);
    assert_eq!(target(&loc, "/s/site/assets/logo.png", false), Target::Asset);
    assert_eq!(target(&loc, "/s/site/collections/posts/a.md", true), Target::Collection(0));
    assert_eq!(target(&loc, "/s/site/collections/other/a.md", true), Target::Unlisted);
    assert_eq!(target(&loc, "/s/site/docs/a.md", true), Target::Page);
    assert_eq!(target(&loc, "/s/site/docs/a.bin", false), Target::File);
}

#[test]
fn extensions_and_stems_follow_std() {
    assert_eq!(extension_of("/a/b.tar.gz"), Some("gz".to_string()));
    assert_eq!(extension_of("/a/.bashrc"), None);
    assert_eq!(extension_of("/a/noext"), None);
    assert_eq!(extension_of("/a/b."), Some("".to_string()));
    assert_eq!(extension_of("/"), None);
    assert_eq!(file_stem_of("/s/layouts/main.hbs"), Some("main".to_string()));
    assert_eq!(file_stem_of("/s/.profile"), Some(".profile".to_string()));
    assert_eq!(file_stem_of("a/.."), None);
}

#[test]
fn an_invalidation_sorts_the_changes() {
    let loc = locations();
    let deleted = vec!["/s/site/old.md".to_string(), "/s/site//old.md".to_string()];
    let paths = vec![
        ("/s/site/docs/a.md".to_string(), true),
        ("/s/site/layouts/main.hbs".to_string(), false),
        ("/s/site/layouts/main.hbs".to_string(), false),
        ("/s/site/assets/app.js".to_string(), false),
        ("/s/site/collections/posts/p.md".to_string(), true),
        ("/s/site/data.bin".to_string(), false),
    ];
    let inv = get_invalidation(&loc, &deleted, &paths);
    assert_eq!(inv.deletions, vec!["/s/site/old.md".to_string()]);
    assert_eq!(inv.layouts, vec!["/s/site/layouts/main.hbs".to_string()]);
    assert_eq!(inv.hooks, vec![(0, "/s/site/assets/app.js".to_string())]);
    assert_eq!(inv.collections, vec![("posts".to_string(), "/s/site/collections/posts/p.md".to_string())]);
    assert_eq!(inv.actions.len(), 2);
    assert!(matches!(&inv.actions[0], Kind::Page(p) if p == "/s/site/docs/a.md"));
    assert!(matches!(&inv.actions[1], Kind::File(p) if p == "/s/site/data.bin"));
    assert!(inv.single_page().is_none());
    assert_eq!(page_paths(&inv), vec!["/s/site/docs/a.md".to_string()]);
    assert_eq!(
        plan(&inv),
        vec![Step::Deletions, Step::Hooks, Step::Layouts, Step::Collections, Step::FilterSynthetics, Step::Render(0), Step::Render(1)]
    );
}

#[test]
fn a_single_page_change_is_followed() {
    let loc = locations();
    let inv = get_invalidation(&loc, &vec![], &vec![("/s/site/docs/a.md".to_string(), true)]);
    assert_eq!(inv.single_page(), Some(&"/s/site/docs/a.md".to_string()));
    let empty = Invalidation::new();
    assert_eq!(plan(&empty), vec![Step::FilterSynthetics]);
}

#[test]
fn the_whole_site_rules_build_everything_for_an_asset() {
    let mut loc = locations();
    loc.includes = None;
    loc.hooks = vec![];
    let rule = get_rule(&loc, &vec![], &vec![("/s/site/assets/logo.png".to_string(), false), ("/s/site/a.md".to_string(), true)]);
    assert_eq!(rule.strategy, Strategy::Full);
    assert!(rule.notify);
    assert!(matches!(&rule.actions[0], Action::Asset(_)));
    assert_eq!(rule_plan(&rule), vec![RuleStep::RenderAll]);
    let rule = get_rule(&loc, &vec!["/s/gone.md".to_string()], &vec![("/s/site/a.md".to_string(), true), ("/s/site/collections/posts/x.md".to_string(), true), ("/s/site/b.md".to_string(), true)]);
    assert_eq!(rule.strategy, Strategy::Mixed);
    assert_eq!(rule_plan(&rule), vec![RuleStep::Deletions, RuleStep::Render(0), RuleStep::Unhandled]);
    assert!(rule.single_page().is_none());
}

#[test]
fn pages_render_once_from_the_buffer() {
    let mut b = PageBuffer::new();
    b.extend(&vec![("/a/".to_string(), "a.md".to_string()), ("/b/".to_string(), "b.md".to_string()), ("/a/".to_string(), "a2.md".to_string())]);
    assert!(b.has_page_path("/a/"));
    assert_eq!(b.take("/a/"), Some("a2.md".to_string()));
    assert!(!b.has_page_path("/a/"));
    assert_eq!(b.take("/a/"), None);
    b.insert("/c/", "c.md");
    b.drop_paths(&vec!["b.md".to_string()]);
    assert!(!b.has_page_path("/b/"));
    assert!(b.has_page_path("/c/"));
}

#[test]
fn layout_changes_render_the_pages_that_use_them() {
    let pages = vec![
        PageInfo { path: "a.md".to_string(), standalone: false, layout: Some("main".to_string()), href: Some("/a/".to_string()) },
        PageInfo { path: "b.md".to_string(), standalone: true, layout: Some("main".to_string()), href: Some("/b/".to_string()) },
        PageInfo { path: "c.md".to_string(), standalone: false, layout: Some("other".to_string()), href: Some("/c/".to_string()) },
        PageInfo { path: "d.md".to_string(), standalone: false, layout: Some("main".to_string()), href: None },
    ];
    assert_eq!(layout_pages(&pages, "main"), vec![("/a/".to_string(), "a.md".to_string())]);
}

#[test]
fn follow_edits_goes_to_the_first_known_href() {
    let hrefs = vec![None, Some("/docs/index.html".to_string()), Some("/fr/docs/".to_string())];
    assert_eq!(find_page_href(true, &hrefs), Some("/docs/".to_string()));
    assert_eq!(find_page_href(false, &hrefs), None);
    assert_eq!(find_page_href(true, &vec![None]), None);
}

#[test]
fn collections_rebuild_when_a_page_they_take_changes() {
    let pages = vec!["/s/site/blog/a.md".to_string(), "/s/site/docs/b.md".to_string()];
    let dbs = vec![
        Database { name: "blog".to_string(), pages_provider: true, base: "/s/site/blog".to_string(), matcher_empty: true, excluded: vec![false, false] },
        Database { name: "docs".to_string(), pages_provider: true, base: "/s/site/docs".to_string(), matcher_empty: false, excluded: vec![false, true] },
        Database { name: "data".to_string(), pages_provider: false, base: "/s/site".to_string(), matcher_empty: true, excluded: vec![false, false] },
    ];
    let u = collections_update(&vec!["posts".to_string(), "posts".to_string()], &dbs, &pages);
    assert_eq!(u.rebuild, vec!["posts".to_string(), "blog".to_string()]);
    assert_eq!(u.reload.len(), 4);
    assert_eq!(u.matchers, vec![0, 1]);
    let u = collections_update(&vec!["blog".to_string()], &dbs, &vec![]);
    assert_eq!(u.rebuild, vec!["blog".to_string()]);
    assert!(u.reload.is_empty());
    assert!(u.matchers.is_empty());
}

fn hook(path: &str, after: Option<bool>, profiles: Option<Vec<&str>>) -> Hook {
    Hook {
        path: path.to_string(),
        args: Some(vec!["--fast".to_string()]),
        after,
        profiles: profiles.map(|p| p.iter().map(|s| s.to_string()).collect()),
        stdout: Some(true),
        stderr: None,
    }
}

#[test]
fn hooks_are_collected_by_phase_and_profile() {
    let hooks = vec![
        hook("before", None, None),
        hook("after", Some(true), None),
        hook("release-only", Some(false), Some(vec!["release"])),
    ];
    let before: Vec<&str> = collect(&hooks, Phase::Before, "debug").iter().map(|h| h.path.as_str()).collect();
    assert_eq!(before, vec!["before"]);
    let release: Vec<&str> = collect(&hooks, Phase::Before, "release").iter().map(|h| h.path.as_str()).collect();
    assert_eq!(release, vec!["before", "release-only"]);
    let after: Vec<&str> = collect(&hooks, Phase::After, "debug").iter().map(|h| h.path.as_str()).collect();
    assert_eq!(after, vec!["after"]);
}

#[test]
fn hook_commands_run_in_the_project() {
    let c = command(&hook("./scripts/build.sh", None, None), "/p", "/p/site", "/p/build/debug", "development", Some("/p/site/a.md"));
    assert_eq!(c.program, "/p/./scripts/build.sh");
    assert_eq!(c.args, vec!["--fast".to_string()]);
    assert_eq!(c.current_dir, "/p");
    assert_eq!(c.envs.len(), 5);
    assert_eq!(c.envs[0], ("NODE_ENV".to_string(), "development".to_string()));
    assert_eq!(c.envs[4], ("BUILD_FILE".to_string(), "/p/site/a.md".to_string()));
    assert!(c.inherit_stdout);
    assert!(!c.inherit_stderr);
    let c = command(&hook("npm", None, None), "/p", "/p/site", "/p/build", "production", None);
    assert_eq!(c.program, "npm");
    assert_eq!(c.envs.len(), 4);
}

#[test]
fn menus_are_html_lists() {
    let mut buf = String::new();
    start_list(&mut buf, "main <nav>");
    assert_eq!(buf, "<ul class=\"main &amp;lt;nav&amp;gt;\">");
    let mut items = String::new();
    pages_list(&mut items, &vec![("/a/".to_string(), Some("A & B".to_string())), ("/b/".to_string(), None)]);
    assert_eq!(items, "<li><a href=\"{{ link \"/a/\" }}\" title=\"A &amp; B\">A &amp; B</a></li><li></li>");
    let mut end = String::new();
    end_list(&mut end);
    assert_eq!(end, "</ul>");
    let mut w = String::from("x");
    uwe::menu::write(&mut w, "y");
    assert_eq!(w, "xy");
    assert_eq!(pages_menu("m", &vec![]), "<ul class=\"m\"></ul>");
}

#[test]
fn redirect_pages_replace_the_location() {
    assert_eq!(
        content("/docs/"),
        "<!doctype html><html><head><noscript><meta http-equiv=\"refresh\" content=\"0; /docs/\"></noscript></head><body onload=\"document.location.replace('/docs/');\"></body></html>"
    );
}

#[test]
fn profile_paths_are_put_under_the_source() {
    assert_eq!(
        prefix("site", &vec!["docs".to_string(), "site/blog".to_string(), "/abs".to_string()]),
        vec!["site/docs".to_string(), "site/blog".to_string(), "/abs".to_string()]
    );
}

#[test]
fn build_filters_limit_and_skip_files() {
    let always = vec!["/cache/plugins".to_string()];
    let filters = Some(vec!["/s/site/docs".to_string()]);
    assert!(path_filter("/s/site/docs/a.md", &always, &filters));
    assert!(path_filter("/cache/plugins/x/a.css", &always, &filters));
    assert!(!path_filter("/s/site/blog/a.md", &always, &filters));
    assert!(path_filter("/s/site/blog/a.md", &always, &None));
    let mut m = Manifest::new("m.json".to_string());
    m.touch("/s/site/docs/a.md", Some(t(5)));
    assert!(!compile_filter("/s/site/docs/a.md", &always, &filters, Some(&m), Some((true, Some(t(5))))));
    assert!(compile_filter("/s/site/docs/a.md", &always, &filters, Some(&m), Some((true, Some(t(6))))));
    assert!(compile_filter("/s/site/docs/a.md", &always, &filters, Some(&m), Some((false, Some(t(5))))));
    assert!(compile_filter("/s/site/docs/a.md", &always, &filters, None, Some((true, Some(t(5))))));
    assert!(compile_filter("/s/site/docs/a.md", &always, &filters, Some(&m), None));
}

#[test]
fn search_urls_drop_the_index_file() {
    assert_eq!(search_url("/docs/index.html", false), "/docs/");
    assert_eq!(search_url("/docs/index.html", true), "/docs/index.html");
    assert_eq!(search_url("/docs/page.html", false), "/docs/page.html");
}

#[test]
fn render_options_for_one_file() {
    let o = RenderOptions::new_file_lang("a.md".to_string(), "fr".to_string(), true, false, false);
    assert_eq!(o.file(), Some(&"a.md".to_string()));
    assert!(o.reload_data);
    let d = RenderOptions::default();
    assert!(matches!(d.target, RenderTarget::All));
    assert!(d.sitemap && d.search_index && !d.reload_data);
    assert_eq!(d.file(), None);
}

#[test]
fn the_environment_file_puts_binaries_first() {
    assert_eq!(get_source_env(), "source $HOME/.hypertext/env\n");
    assert_eq!(get_env_content("/home/u/.hypertext/bin"), "export PATH=\"/home/u/.hypertext/bin:$PATH\"\n");
    assert_eq!(profile_files("zsh"), Some(vec![".profile".to_string(), ".zshrc".to_string()]));
    assert_eq!(profile_files("bash"), Some(vec![".profile".to_string(), ".bashrc".to_string()]));
    assert_eq!(profile_files("fish"), None);
    assert_eq!(profile_update("alias ll=ls\n"), Some("alias ll=ls\nsource $HOME/.hypertext/env\n".to_string()));
    assert_eq!(profile_update("x\nsource $HOME/.hypertext/env\ny"), None);
    assert_eq!(VersionInfo::default().version, "");
}

#[test]
fn ipc_responses() {
    let ok = Response::ok(7);
    assert_eq!(ok.id, 7);
    assert!(matches!(ok.event, ResponseEvent::Success));
    assert!(ok.message.is_none());
    let err = Response::into_error(8, "no folder".to_string());
    assert!(matches!(err.event, ResponseEvent::Error));
    assert_eq!(err.message, Some("no folder".to_string()));
    let d = Response::default();
    assert_eq!(d.id, 0);
    assert!(matches!(d.event, ResponseEvent::Error));
    let req = Request { id: 1, event: RequestEvent::OpenFolder };
    assert_eq!(req.event, RequestEvent::OpenFolder);
}

#[test]
fn the_supervisor_socket_is_named_by_process() {
    let s = SocketFile::new("/tmp", "42");
    assert_eq!(s.path(), "/tmp/uwe-42.sock");
}

#[test]
fn members_and_results() {
    let m = Member::new("docs".to_string(), "docs.local".to_string());
    assert_eq!(m.key, "docs");
    assert_eq!(m.hostname, "docs.local");
    assert!(ProjectResult::default().sitemaps.is_empty());
}

use uwe::options::{build_paths, force_flag, member_url, OptionsError};
use uwe::project::{
    check_exec, check_host_names, choose_profile, is_selected, verify, ProfileChoice, ProfileEntry,
    WorkspaceError,
};

#[test]
fn member_filters_select_projects() {
    let filters = vec!["docs".to_string()];
    assert!(is_selected(&filters, Some("docs")));
    assert!(!is_selected(&filters, Some("blog")));
    assert!(is_selected(&filters, None));
    assert!(is_selected(&vec![], Some("blog")));
}

#[test]
fn members_need_distinct_host_names() {
    let hosts = vec!["a.localhost".to_string(), "b.localhost".to_string(), "c.localhost".to_string(), "b.localhost".to_string(), "a.localhost".to_string()];
    assert!(matches!(check_host_names(&hosts), Err(WorkspaceError::DuplicateHostName(h, 1, 3)) if h == "b.localhost"));
    assert!(check_host_names(&vec!["a".to_string(), "b".to_string()]).is_ok());
}

#[test]
fn filter_paths_must_lie_in_the_source() {
    assert!(verify("/p/site", &vec!["/p/site/a.md".to_string(), "/p/site/docs".to_string()]).is_ok());
    assert!(matches!(
        verify("/p/site", &vec!["/p/site/a.md".to_string(), "/p/other/b.md".to_string(), "/x".to_string()]),
        Err(WorkspaceError::OutsideSourceTree(p)) if p == "/p/other/b.md"
    ));
}

#[test]
fn build_directories_are_under_the_project() {
    assert!(matches!(build_paths("/p", "site", "build", "debug"), Ok((s, b)) if s == "/p/site" && b == "/p/build/debug"));
    assert!(matches!(build_paths("/p", "/site", "build", "debug"), Err(OptionsError::SourceAbsolute(s)) if s == "/site"));
    assert!(matches!(build_paths("/p", "site", "/build", "/debug"), Err(OptionsError::TargetAbsolute(s)) if s == "/build"));
    assert!(matches!(build_paths("/p", "site", "build", "/debug"), Err(OptionsError::ProfileNameAbsolute(s)) if s == "/debug"));
}

#[test]
fn live_incremental_builds_are_forced() {
    assert_eq!(force_flag(true, true, None), Some(true));
    assert_eq!(force_flag(true, true, Some(false)), Some(true));
    assert_eq!(force_flag(true, false, None), None);
    assert_eq!(force_flag(false, true, Some(false)), Some(false));
}

#[test]
fn member_urls() {
    assert_eq!(member_url("docs.example.com//", true, "ignored"), "//docs.example.com/");
    assert_eq!(member_url("docs", false, "//docs.localhost:8843"), "//docs.localhost:8843/");
}

use uwe::invalidation::{build_file_for, deletion_path, is_index_file};

#[test]
fn deleted_files_are_named_relative_to_the_project() {
    assert_eq!(deletion_path("/p/site/a.md", "/p", "/cwd"), "site/a.md");
    assert_eq!(deletion_path("/cwd/site/a.md", "p", "/cwd"), "site/a.md");
    assert_eq!(deletion_path("/elsewhere/a.md", "/p", "/cwd"), "/elsewhere/a.md");
}

#[test]
fn build_products_are_found_from_hrefs() {
    assert_eq!(build_file_for("/p/build/debug", "/docs/index.html"), "/p/build/debug/docs/index.html");
    assert_eq!(build_file_for("/p/build/debug/", "a.html"), "/p/build/debug/a.html");
    assert!(is_index_file("/p/build/debug/docs/index.html"));
    assert!(!is_index_file("/p/build/debug/docs/a.html"));
    assert!(!is_index_file("/"));
}

use uwe::render::{locale_target, locales_to_render, RenderFilter};

#[test]
fn renders_choose_locales() {
    let langs = vec!["en".to_string(), "fr".to_string(), "de".to_string()];
    assert_eq!(locales_to_render(&RenderFilter::All, &langs), vec![0, 1, 2]);
    assert_eq!(locales_to_render(&RenderFilter::One("fr".to_string()), &langs), vec![1]);
    assert!(locales_to_render(&RenderFilter::One("es".to_string()), &langs).is_empty());
    assert_eq!(locale_target("fr", true, "/p/build/debug"), "/p/build/debug/fr");
    assert_eq!(locale_target("fr", false, "/p/build/debug"), "/p/build/debug");
}

#[test]
fn matchers_filter_the_pages_to_render() {
    let links = vec![
        ("/".to_string(), "site/index.md".to_string()),
        ("/posts/a/".to_string(), "site/posts/a.md".to_string()),
        ("/posts/draft/".to_string(), "site/posts/draft.md".to_string()),
        ("/about/".to_string(), "site/about.md".to_string()),
    ];
    let all = pages_to_render(&vec![], &vec![], &links);
    assert_eq!(all, links);
    let bases = vec!["site/posts".to_string()];
    let excluded = vec![vec![false, false, true, true]];
    let kept = pages_to_render(&bases, &excluded, &links);
    assert_eq!(kept, vec![links[0].clone(), links[1].clone(), links[3].clone()]);
}

#[test]
fn hooks_need_the_capability_to_run_commands() {
    assert!(check_exec(false, false, "site.localhost").is_ok());
    assert!(check_exec(true, true, "site.localhost").is_ok());
    assert!(matches!(
        check_exec(true, false, "site.localhost"),
        Err(WorkspaceError::NoExecCapability(h)) if h == "site.localhost"
    ));
}

#[test]
fn profiles_are_built_in_or_defined_by_the_settings() {
    let profiles = vec![
        ProfileEntry { name: "staging".to_string(), names_profile: false },
        ProfileEntry { name: "nested".to_string(), names_profile: true },
    ];
    assert!(matches!(choose_profile(None, &profiles), Ok(ProfileChoice::Base)));
    assert!(matches!(choose_profile(Some("debug"), &profiles), Ok(ProfileChoice::Debug)));
    assert!(matches!(choose_profile(Some("release"), &profiles), Ok(ProfileChoice::Release)));
    assert!(matches!(choose_profile(Some("dist"), &profiles), Ok(ProfileChoice::Dist)));
    assert!(matches!(choose_profile(Some("staging"), &profiles), Ok(ProfileChoice::Custom(0))));
    assert!(matches!(choose_profile(Some("nested"), &profiles), Err(WorkspaceError::NoProfileInProfile)));
    assert!(matches!(
        choose_profile(Some("missing"), &profiles),
        Err(WorkspaceError::NoProfile(n)) if n == "missing"
    ));
}
