use std::sync::Arc;

use authami::registry::clashing_names;
use authami::router::{
    is_segment_ok, join_segments_exec, lookup_name_exec, normalize_segments, resolve_in, split_path,
};
use authami::{
    remove_extension, Discovery, DiscoveryError, Resolution, TemplateFileServer, TemplateRegistry,
    TemplateServer, TemplateServerConfig, Templated,
};

fn strings(items: &[&str]) -> Vec<String> {
    items.iter().map(|s| s.to_string()).collect()
}

fn registry_with(names: &[&str]) -> TemplateRegistry {
    TemplateRegistry::from_files(&strings(names)).unwrap()
}

fn server(reg: TemplateRegistry, use_index: bool, sub_root: Option<&str>) -> TemplateFileServer {
    TemplateFileServer::builder()
        .template_registry(Arc::new(reg))
        .use_index_files(use_index)
        .template_page_root(sub_root.map(|s| s.to_string()))
        .build()
}

fn hit_handle(r: &Resolution) -> Option<String> {
    match r {
        Resolution::Hit(Templated(h)) => Some(h.clone()),
        _ => None,
    }
}

#[test]
fn multi_suffix_stripping() {
    assert_eq!(remove_extension("a/b/index.html.hbs").unwrap(), "a/b/index");
    assert_eq!(remove_extension("a/page.hbs").unwrap(), "a/page");
    assert_eq!(remove_extension("a/page").unwrap(), "a/page");
}

#[test]
fn stripping_keeps_dots_of_directories() {
    assert_eq!(remove_extension("v1.2/page.tar.gz").unwrap(), "v1.2/page");
    assert_eq!(remove_extension("x.hbs").unwrap(), "x");
}

#[test]
fn naming_twice_is_naming_once() {
    for p in ["a/b/index.html.hbs", "a/page.hbs", "a/page", "d.x/e.f.g", "plain"] {
        let once = remove_extension(p).unwrap();
        let twice = remove_extension(&once).unwrap();
        assert_eq!(once, twice);
        assert!(!once.rsplit('/').next().unwrap().contains('.'));
    }
}

#[test]
fn all_suffix_name_is_malformed() {
    assert!(matches!(remove_extension("a/.hbs"), Err(DiscoveryError::MalformedTemplateName)));
    assert!(matches!(remove_extension("..."), Err(DiscoveryError::MalformedTemplateName)));
    assert!(matches!(remove_extension(""), Err(DiscoveryError::MalformedTemplateName)));
    assert!(matches!(remove_extension("dir/"), Err(DiscoveryError::MalformedTemplateName)));
}

#[test]
fn registry_completeness() {
    let reg = TemplateRegistry::from_files(&strings(&["x.hbs", "sub/y.hbs"])).unwrap();
    assert_eq!(reg.len(), 2);
    assert_eq!(reg.get(&"x".to_string()).unwrap(), "x");
    assert_eq!(reg.get(&"sub/y".to_string()).unwrap(), "sub/y");
    assert!(reg.get(&"x.hbs".to_string()).is_none());
    let mut names: Vec<String> = reg.inner().iter().map(|e| e.name.clone()).collect();
    names.sort();
    assert_eq!(names, strings(&["sub/y", "x"]));
}

#[test]
fn registry_same_identifier_keeps_one_entry() {
    let reg = TemplateRegistry::from_files(&strings(&["page.html", "page.hbs"])).unwrap();
    assert_eq!(reg.len(), 1);
    assert_eq!(reg.get(&"page".to_string()).unwrap(), "page");
}

#[test]
fn registry_rejects_malformed_file() {
    let r = TemplateRegistry::from_files(&strings(&["ok.hbs", "sub/.hbs"]));
    assert!(matches!(r, Err(DiscoveryError::MalformedTemplateName)));
}

#[test]
fn breadth_first_discovery() {
    let mut d = Discovery::new();
    let root = d.next_step().unwrap();
    assert_eq!(root, "");
    d.found_dir(&root, strings(&["x.hbs", "sub"]));
    let first = d.next_step().unwrap();
    assert_eq!(first, "x.hbs");
    d.found_file(first);
    let sub = d.next_step().unwrap();
    assert_eq!(sub, "sub");
    d.found_dir(&sub, strings(&["y.hbs"]));
    let y = d.next_step().unwrap();
    assert_eq!(y, "sub/y.hbs");
    d.found_file(y);
    assert!(d.next_step().is_none());
    let reg = d.finish().unwrap();
    assert_eq!(reg.len(), 2);
    assert!(reg.get(&"x".to_string()).is_some());
    assert!(reg.get(&"sub/y".to_string()).is_some());
}

#[test]
fn index_fallback() {
    let on = server(registry_with(&["index"]), true, None);
    assert_eq!(hit_handle(&on.resolve("/")).unwrap(), "index");
    let off = server(registry_with(&["index"]), false, None);
    assert!(matches!(off.resolve("/"), Resolution::Decline));
}

#[test]
fn sub_root_remapping() {
    let s = server(registry_with(&["pages/about"]), false, Some("pages"));
    assert_eq!(hit_handle(&s.resolve("/about")).unwrap(), "pages/about");
    assert!(matches!(s.resolve("/pages/about"), Resolution::Decline));
    let slash = server(registry_with(&["pages/about"]), false, Some("pages/"));
    assert_eq!(hit_handle(&slash.resolve("/about")).unwrap(), "pages/about");
}

#[test]
fn sub_root_index() {
    let s = server(registry_with(&["pages/index"]), true, Some("pages"));
    assert_eq!(hit_handle(&s.resolve("/")).unwrap(), "pages/index");
}

#[test]
fn miss_is_not_error() {
    let s = server(registry_with(&["a", "b/c"]), true, None);
    assert!(matches!(s.resolve("/nothing"), Resolution::Decline));
    assert!(matches!(s.resolve("/b"), Resolution::Decline));
    assert_eq!(hit_handle(&s.resolve("/b/c")).unwrap(), "b/c");
}

#[test]
fn undecodable_path_is_invalid() {
    let s = server(registry_with(&["secret"]), false, None);
    assert!(matches!(s.resolve("/.env"), Resolution::InvalidPath));
    assert!(matches!(s.resolve("/a/./b"), Resolution::InvalidPath));
    assert!(matches!(s.resolve("/*x"), Resolution::InvalidPath));
    assert!(matches!(s.resolve("/x:"), Resolution::InvalidPath));
    assert!(matches!(s.resolve("/a>"), Resolution::InvalidPath));
    assert!(matches!(s.resolve("/a</b"), Resolution::InvalidPath));
    assert_eq!(hit_handle(&s.resolve("/secret")).unwrap(), "secret");
    let segs = strings(&["a/b"]);
    assert!(matches!(s.resolve_segments(&segs), Resolution::InvalidPath));
}

#[test]
fn parent_segment_steps_back() {
    let s = server(registry_with(&["secret", "b"]), true, None);
    assert_eq!(hit_handle(&s.resolve("/../secret")).unwrap(), "secret");
    assert_eq!(hit_handle(&s.resolve("/a/../b")).unwrap(), "b");
    assert!(matches!(s.resolve("/a/x/../.."), Resolution::Decline));
    let idx = server(registry_with(&["index"]), true, None);
    assert_eq!(hit_handle(&idx.resolve("/a/..")).unwrap(), "index");
    assert_eq!(hit_handle(&s.resolve_segments(&strings(&["x", "..", "b"]))).unwrap(), "b");
}

#[test]
fn repeated_resolution_through_shared_registry() {
    let reg = Arc::new(registry_with(&["a", "b", "c/d"]));
    let one = TemplateFileServer::builder().template_registry(reg.clone()).build();
    let two = TemplateFileServer::builder()
        .template_registry(reg.clone())
        .template_page_root(Some("c".to_string()))
        .build();
    let paths = ["/a", "/b", "/c/d", "/d", "/zz", "/.x"];
    let first: Vec<String> = paths.iter().map(|p| format!("{:?}", one.resolve(p))).collect();
    for _ in 0..3 {
        let again: Vec<String> = paths.iter().map(|p| format!("{:?}", one.resolve(p))).collect();
        assert_eq!(first, again);
    }
    assert_eq!(hit_handle(&two.resolve("/d")).unwrap(), "c/d");
    assert_eq!(hit_handle(&one.resolve("/c/d")).unwrap(), "c/d");
}

#[test]
fn chain_fallthrough_declines_on_empty_registry() {
    let s = server(TemplateRegistry::new(), false, None);
    assert!(matches!(s.resolve("/missing.txt"), Resolution::Decline));
    let bare = TemplateFileServer::builder().build();
    assert!(matches!(bare.resolve("/missing.txt"), Resolution::Decline));
}

#[test]
fn builder_defaults_and_settings() {
    let d = TemplateFileServer::default();
    assert_eq!(d.rank, 10);
    assert!(!d.use_index_files);
    assert!(d.template_registry.is_none());
    assert!(d.custom_template_page_sub_root.is_none());
    assert_eq!(d.public_root, "public");
    let s = TemplateFileServer::builder()
        .rank(3)
        .use_index_files(true)
        .public_root("static".to_string())
        .template_page_root(Some("pages".to_string()))
        .build();
    assert_eq!(s.rank, 3);
    assert!(s.use_index_files);
    assert_eq!(s.public_root, "static");
    assert_eq!(s.custom_template_page_sub_root.as_deref(), Some("pages"));
}

#[test]
fn generate_template_registry_from_files() {
    let b = TemplateFileServer::builder()
        .generate_template_registry(&strings(&["index.html.hbs", "docs/intro.hbs"]))
        .unwrap();
    let s = b.use_index_files(true).build();
    assert_eq!(hit_handle(&s.resolve("/")).unwrap(), "index");
    assert_eq!(hit_handle(&s.resolve("/docs/intro")).unwrap(), "docs/intro");
    let bad = TemplateFileServer::builder().generate_template_registry(&strings(&[".hbs"]));
    assert!(matches!(bad, Err(DiscoveryError::MalformedTemplateName)));
}

#[test]
fn split_path_skips_empty_pieces() {
    assert_eq!(split_path("//a//b/"), strings(&["a", "b"]));
    assert_eq!(split_path("/"), Vec::<String>::new());
    assert_eq!(split_path(""), Vec::<String>::new());
    assert_eq!(split_path("a.b/c"), strings(&["a.b", "c"]));
}

#[test]
fn normalize_follows_segment_rules() {
    assert_eq!(normalize_segments(&strings(&["a", "..", "b"])).unwrap(), strings(&["b"]));
    assert_eq!(normalize_segments(&strings(&["..", "..", "c"])).unwrap(), strings(&["c"]));
    assert_eq!(normalize_segments(&strings(&["a.b", "c"])).unwrap(), strings(&["a.b", "c"]));
    assert!(normalize_segments(&strings(&["x", ".y"])).is_none());
    assert!(normalize_segments(&strings(&["."])).is_none());
    assert!(is_segment_ok("a*"));
    assert!(!is_segment_ok("*a"));
    assert!(!is_segment_ok("a:"));
    assert!(!is_segment_ok("a/b"));
    assert!(is_segment_ok(""));
}

#[test]
fn lookup_names() {
    assert_eq!(join_segments_exec(&strings(&["a", "b", "c"])), "a/b/c");
    assert_eq!(join_segments_exec(&Vec::new()), "");
    assert_eq!(lookup_name_exec(true, &None, Vec::new()), "index");
    assert_eq!(lookup_name_exec(false, &None, Vec::new()), "");
    assert_eq!(lookup_name_exec(true, &Some("p".to_string()), strings(&["a"])), "p/a");
    assert_eq!(lookup_name_exec(false, &Some(String::new()), strings(&["a"])), "a");
}

#[test]
fn templated_from_request_path() {
    let reg = registry_with(&["about", "index"]);
    assert_eq!(hit_handle(&Templated::from_request_path(&reg, "/about")).unwrap(), "about");
    assert!(matches!(Templated::from_request_path(&reg, "/"), Resolution::Decline));
    assert!(matches!(Templated::from_request_path(&reg, "/.git"), Resolution::InvalidPath));
    assert!(matches!(resolve_in(&reg, true, &None, "/"), Resolution::Hit(_)));
}

#[test]
fn template_server_registers_every_file() {
    let files = strings(&["x.hbs", "notes.txt", "sub/y.html.hbs"]);
    let reg = TemplateServer::registry_from_files(&files).unwrap();
    assert_eq!(reg.len(), 3);
    assert!(reg.get(&"x".to_string()).is_some());
    assert!(reg.get(&"notes".to_string()).is_some());
    assert!(reg.get(&"sub/y".to_string()).is_some());
    let only_text = TemplateServer::registry_from_files(&strings(&["notes.txt"])).unwrap();
    assert_eq!(only_text.len(), 1);
    assert!(!TemplateServerConfig::default().use_index_files);
    assert!(matches!(
        TemplateServer::registry_from_files(&strings(&["a/.hbs"])),
        Err(DiscoveryError::MalformedTemplateName)
    ));
}

#[test]
fn clashing_identifiers_are_reported() {
    let files = strings(&["page.html", "a.hbs", "page.hbs", "b", "a.txt", ".hbs"]);
    let mut clashes = clashing_names(&files);
    clashes.sort();
    clashes.dedup();
    assert_eq!(clashes, strings(&["a", "page"]));
    assert!(clashing_names(&strings(&["x.hbs", "sub/x.hbs"])).is_empty());
}

#[test]
fn inner_lists_each_identifier_once() {
    let reg = TemplateRegistry::from_files(&strings(&["a.hbs", "a.html", "b.hbs"])).unwrap();
    let mut names: Vec<String> = reg.inner().iter().map(|e| e.name.clone()).collect();
    names.sort();
    assert_eq!(names, strings(&["a", "b"]));
}
