use crate_docs::{
    doc_command_args, extract_item_name, extract_method_name, filter_by_item_type,
    filter_by_query, generate_docs, html_to_text, join_lines, list_crates, lookup_crate,
    parse_html_file, DirEntry, ErrorKind, GenerateDocsRequest, GeneratorOutput, Item, ItemKind,
    Lookup, LookupCrateRequest, Router, WalkStep, Walker,
};

fn function(name: &str, description: Option<&str>) -> Item {
    Item::Function {
        name: name.to_string(),
        signature: format!("pub fn {}()", name),
        description: description.map(|d| d.to_string()),
    }
}

fn names(items: &[Item]) -> Vec<String> {
    items.iter().map(|item| item.search_items().0.clone()).collect()
}

fn query(limit: Option<usize>, offset: Option<usize>, item_type: Option<&str>, text: Option<&str>) -> LookupCrateRequest {
    LookupCrateRequest {
        name: "demo".to_string(),
        limit,
        offset,
        item_type: item_type.map(|s| s.to_string()),
        query: text.map(|s| s.to_string()),
    }
}

fn page(declaration: &str, rest: &str) -> String {
    format!(
        r#"<!DOCTYPE html><html><body><pre class="rust item-decl"><code>{}</code></pre>{}</body></html>"#,
        declaration, rest
    )
}

fn entry(name: &str, is_dir: bool) -> DirEntry {
    DirEntry { name: name.to_string(), is_dir }
}

#[test]
fn normalize_twice_on_plain_text() {
    let once = html_to_text("<p>Hello   <b>world</b>\n and\tall</p>".to_string());
    assert_eq!(once, "Hello world and all");
    assert_eq!(html_to_text(once.clone()), once);
}

#[test]
fn normalize_twice_on_escaped_markup() {
    let once = html_to_text("&lt;b&gt;bold&lt;/b&gt;".to_string());
    assert_eq!(once, "<b>bold</b>");
    assert_eq!(html_to_text(once), "bold");
}

#[test]
fn normalize_paragraph() {
    assert_eq!(html_to_text("<p>Hello <strong>world</strong></p>".to_string()), "Hello world");
}

#[test]
fn normalize_entities() {
    assert_eq!(html_to_text("&lt;div&gt; &amp; &quot;test&quot;".to_string()), "<div> & \"test\"");
    assert_eq!(html_to_text("it&#39;s".to_string()), "it's");
    assert_eq!(html_to_text("a&nbsp;b".to_string()), "a&nbsp;b");
    assert_eq!(html_to_text("&amp;lt;".to_string()), "<");
}

#[test]
fn normalize_unclosed_tag_is_kept() {
    assert_eq!(html_to_text("a <b".to_string()), "a <b");
    assert_eq!(html_to_text("x<y<z>w".to_string()), "xw");
    assert_eq!(html_to_text("".to_string()), "");
}

#[test]
fn normalize_unicode_whitespace() {
    assert_eq!(html_to_text("\u{3000}x\u{a0}\u{2028}y\u{85}".to_string()), "x y");
    assert_eq!(html_to_text(" \t\n ".to_string()), "");
}

#[test]
fn item_name_examples() {
    assert_eq!(extract_item_name("fn.add.html").unwrap(), "add");
    assert_eq!(extract_item_name("struct.MyStruct.html").unwrap(), "MyStruct");
    assert_eq!(extract_item_name("constant.A.B.html").unwrap(), "A.B");
    assert_eq!(extract_item_name("invalid").unwrap_err().kind, ErrorKind::MalformedFileName);
    assert_eq!(extract_item_name("fn.add.txt").unwrap_err().kind, ErrorKind::MalformedFileName);
    assert_eq!(extract_item_name("index.html").unwrap_err().kind, ErrorKind::MalformedFileName);
}

#[test]
fn classify_by_prefix() {
    assert_eq!(ItemKind::from("fn.add.html"), ItemKind::Function);
    assert_eq!(ItemKind::from("struct.S.html"), ItemKind::Struct);
    assert_eq!(ItemKind::from("enum.E.html"), ItemKind::Enum);
    assert_eq!(ItemKind::from("trait.T.html"), ItemKind::Trait);
    assert_eq!(ItemKind::from("macro.m.html"), ItemKind::Macro);
    assert_eq!(ItemKind::from("type.A.html"), ItemKind::Type);
    assert_eq!(ItemKind::from("constant.C.html"), ItemKind::Constant);
    assert_eq!(ItemKind::from("index.html"), ItemKind::Module);
    assert_eq!(ItemKind::from("fnx.html"), ItemKind::Module);
    assert_eq!(ItemKind::Constant.label(), "constant");
}

#[test]
fn method_name_trims_before_paren() {
    assert_eq!(extract_method_name("fn  spaced (x)"), "spaced");
    assert_eq!(extract_method_name("fn no_paren"), "unknown");
    assert_eq!(extract_method_name("pub fn f()"), "unknown");
}

#[test]
fn offset_past_end_is_empty() {
    let items = vec![function("a", None), function("b", None), function("c", None)];
    assert!(lookup_crate(&query(None, Some(3), None, None), items).items.is_empty());
    let items = vec![function("a", None)];
    assert!(lookup_crate(&query(Some(5), Some(10), None, None), items).items.is_empty());
}

#[test]
fn limit_bounds_the_answer() {
    let five = || (0..5).map(|i| function(&format!("f{}", i), None)).collect::<Vec<_>>();
    assert_eq!(lookup_crate(&query(Some(0), None, None, None), five()).items.len(), 0);
    assert_eq!(names(&lookup_crate(&query(Some(2), None, None, None), five()).items), vec!["f0", "f1"]);
    assert_eq!(lookup_crate(&query(Some(10), None, None, None), five()).items.len(), 5);
}

#[test]
fn offset_and_limit_pick_a_window() {
    let items = (0..5).map(|i| function(&format!("func_{}", i), None)).collect::<Vec<_>>();
    let doc = lookup_crate(&query(Some(2), Some(1), None, None), items);
    assert_eq!(doc.name, "demo");
    assert_eq!(names(&doc.items), vec!["func_1", "func_2"]);
}

#[test]
fn kind_filter_ignores_ascii_case() {
    let items = vec![
        function("add", None),
        Item::Module { name: "m".to_string(), description: None, items: vec![] },
    ];
    assert_eq!(names(&filter_by_item_type(items, "FUNCTION")), vec!["add"]);
    let items = vec![function("add", None)];
    assert!(filter_by_item_type(items, "fn").is_empty());
}

#[test]
fn text_filter_folds_case() {
    let items = vec![function("add", Some("Adds numbers")), function("subtract", Some("Subtracts numbers"))];
    assert_eq!(names(&filter_by_query(items, "ADD")), vec!["add"]);
    let items = vec![function("add", Some("Adds numbers")), function("subtract", None)];
    assert_eq!(names(&filter_by_query(items, "NUMBERS")), vec!["add"]);
    let items = vec![function("add", None)];
    assert_eq!(names(&filter_by_query(items, "")), vec!["add"]);
}

#[test]
fn filters_apply_before_paging() {
    let items = vec![
        function("alpha", None),
        Item::Module { name: "alpha_mod".to_string(), description: None, items: vec![] },
        function("alphabet", None),
        function("beta", None),
    ];
    let doc = lookup_crate(&query(Some(1), Some(1), Some("function"), Some("alpha")), items);
    assert_eq!(names(&doc.items), vec!["alphabet"]);
}

#[test]
fn crates_are_filtered_and_sorted() {
    let entries = vec![
        entry("crate_c", true),
        entry("static.files", true),
        entry("crate_a", true),
        entry("src", true),
        entry("notes", false),
        entry("crate_b", true),
        entry("Zeta", true),
    ];
    assert_eq!(list_crates(entries), vec!["Zeta", "crate_a", "crate_b", "crate_c"]);
    assert!(list_crates(vec![]).is_empty());
}

#[test]
fn page_without_declaration_is_skipped() {
    let html = "<html><body><p>index</p></body></html>";
    assert!(parse_html_file(html, "bad-name").unwrap().is_none());
    let empty = page(" <b></b> ", "");
    assert!(parse_html_file(&empty, "fn.f.html").unwrap().is_none());
}

#[test]
fn malformed_name_with_declaration_fails() {
    let html = page("pub fn f()", "");
    assert_eq!(parse_html_file(&html, "fnf.html").unwrap_err().kind, ErrorKind::MalformedFileName);
}

#[test]
fn methods_without_header_are_skipped() {
    let rest = r#"<div class="impl-items"><div class="method"><div class="docblock">orphan</div></div><div class="method"><div class="code-header"> </div></div><div class="method"><div class="code-header">fn run(&amp;self)</div><div class="docblock"> </div></div></div>"#;
    let html = page("pub trait Runner", rest);
    match parse_html_file(&html, "trait.Runner.html").unwrap().unwrap() {
        Item::Trait { name, methods, .. } => {
            assert_eq!(name, "Runner");
            assert_eq!(methods.len(), 1);
            assert_eq!(methods[0].name, "run");
            assert_eq!(methods[0].signature, "fn run(&self)");
            assert_eq!(methods[0].description, None);
        }
        other => panic!("unexpected item {:?}", other),
    }
}

#[test]
fn other_kinds_have_no_parts() {
    let html = page("macro_rules! m", "<div class=\"variants\"><div class=\"variant\"><div class=\"code-header\">A</div></div></div>");
    assert_eq!(
        parse_html_file(&html, "macro.m.html").unwrap().unwrap(),
        Item::Macro { name: "m".to_string(), signature: "macro_rules! m".to_string(), description: None }
    );
}

fn walk(listing: &dyn Fn(&[String]) -> Vec<DirEntry>, read: &dyn Fn(&[String]) -> String) -> Result<Vec<Item>, crate_docs::Error> {
    let mut walker = Walker::new();
    loop {
        match walker.next_step() {
            WalkStep::ListDir(path) => walker.dir_listed(listing(&path)),
            WalkStep::ReadFile(path) => walker.file_read(&read(&path))?,
            WalkStep::Done => return Ok(walker.into_items()),
        }
    }
}

#[test]
fn walk_is_pre_order_and_skips_other_files() {
    let listing = |path: &[String]| -> Vec<DirEntry> {
        match path.len() {
            0 => vec![entry("a", true), entry("fn.top.html", false), entry("style.css", false), entry(".html", false)],
            1 => vec![entry("b", true), entry("fn.mid.html", false)],
            _ => vec![entry("fn.deep.html", false)],
        }
    };
    let read = |path: &[String]| -> String {
        let file = path.last().unwrap();
        assert!(file.ends_with(".html") && file.len() > 5);
        let name = file.trim_start_matches("fn.").trim_end_matches(".html");
        page(&format!("pub fn {}()", name), "")
    };
    let items = walk(&listing, &read).unwrap();
    assert_eq!(names(&items), vec!["deep", "mid", "top"]);
}

#[test]
fn walk_stops_at_malformed_name() {
    let listing = |_: &[String]| -> Vec<DirEntry> { vec![entry("fn.ok.html", false), entry("broken.htm.html", false)] };
    let read = |path: &[String]| -> String {
        let file = path.last().unwrap();
        if file == "broken.htm.html" {
            page("pub fn broken()", "")
        } else {
            page("pub fn ok()", "")
        }
    };
    assert!(walk(&listing, &read).is_ok());
    let listing = |_: &[String]| -> Vec<DirEntry> { vec![entry("fn.ok.html", false), entry("fnbroken.html", false)] };
    assert_eq!(walk(&listing, &read).unwrap_err().kind, ErrorKind::MalformedFileName);
}

#[test]
fn generator_report() {
    let out = |success: bool, stdout: &str, stderr: &str| GeneratorOutput {
        success,
        stdout: stdout.to_string(),
        stderr: stderr.to_string(),
    };
    assert_eq!(generate_docs(&out(true, "built", "warned")).unwrap(), "STDOUT:\nbuilt\n\nSTDERR:\nwarned");
    assert_eq!(generate_docs(&out(true, "", "warned")).unwrap(), "STDERR:\nwarned");
    assert_eq!(generate_docs(&out(true, "built", "")).unwrap(), "STDOUT:\nbuilt");
    assert_eq!(generate_docs(&out(true, "", "")).unwrap(), "Documentation generated successfully.");
    let err = generate_docs(&out(false, "x", "boom")).unwrap_err();
    assert_eq!(err.kind, ErrorKind::ExternalProcess);
    assert_eq!(err.message(), "cargo doc failed: boom");
    let router = Router::new();
    assert_eq!(router.generate_docs_impl(&out(true, "a", "b")).unwrap(), "ab");
    assert_eq!(router.generate_docs_impl(&out(false, "a", "b")).unwrap_err().message, "cargo doc failed: b");
}

#[test]
fn generator_arguments() {
    let request = GenerateDocsRequest { flags: Some(vec!["--no-deps".to_string(), "--open".to_string()]) };
    assert_eq!(doc_command_args(&request), vec!["doc", "--no-deps", "--open"]);
    assert_eq!(doc_command_args(&GenerateDocsRequest { flags: None }), vec!["doc"]);
}

#[test]
fn listing_is_joined_by_newlines() {
    assert_eq!(join_lines(&vec!["a".to_string(), "b".to_string(), "c".to_string()]), "a\nb\nc");
    assert_eq!(join_lines(&vec![]), "");
    assert_eq!(join_lines(&vec!["only".to_string()]), "only");
}

#[test]
fn lookup_arguments_become_a_request() {
    let lookup = Lookup {
        name: "serde".to_string(),
        limit: Some(3),
        offset: None,
        item_type: Some("struct".to_string()),
        query: None,
    };
    let request = LookupCrateRequest::from(lookup);
    assert_eq!(request.name, "serde");
    assert_eq!(request.limit, Some(3));
    assert_eq!(request.offset, None);
    assert_eq!(request.item_type.as_deref(), Some("struct"));
    assert_eq!(request.query, None);
}

#[test]
fn errors_carry_kind_and_message() {
    let error = crate_docs::Error::new(ErrorKind::NotFound, "documentation not found".to_string());
    assert_eq!(error.kind, ErrorKind::NotFound);
    assert_eq!(error.message(), "documentation not found");
    let error = crate_docs::Error::new(ErrorKind::Io, "permission denied".to_string());
    assert_eq!(error.kind, ErrorKind::Io);
}
