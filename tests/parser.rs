use crate_docs::{
    lookup_crate, DirEntry,
    Documentation, Error, Item, LookupCrateRequest, Method, WalkStep, Walker,
};

enum Node {
    Dir(Vec<(String, Node)>),
    File(String),
}

fn dir(entries: Vec<(&str, Node)>) -> Node {
    Node::Dir(entries.into_iter().map(|(n, node)| (n.to_string(), node)).collect())
}

fn resolve<'a>(root: &'a Node, path: &[String]) -> &'a Node {
    let mut node = root;
    for name in path {
        match node {
            Node::Dir(entries) => {
                node = &entries.iter().find(|(n, _)| n == name).unwrap().1;
            }
            Node::File(_) => panic!("not a directory"),
        }
    }
    node
}

fn lookup(root: &Node, request: &LookupCrateRequest) -> Result<Documentation, Error> {
    let mut walker = Walker::new();
    loop {
        match walker.next_step() {
            WalkStep::ListDir(path) => match resolve(root, &path) {
                Node::Dir(entries) => walker.dir_listed(
                    entries
                        .iter()
                        .map(|(name, node)| DirEntry {
                            name: name.clone(),
                            is_dir: matches!(node, Node::Dir(_)),
                        })
                        .collect(),
                ),
                Node::File(_) => panic!("not a directory"),
            },
            WalkStep::ReadFile(path) => match resolve(root, &path) {
                Node::File(content) => walker.file_read(content)?,
                Node::Dir(_) => panic!("not a file"),
            },
            WalkStep::Done => break,
        }
    }
    Ok(lookup_crate(request, walker.into_items()))
}

fn request(
    limit: Option<usize>,
    offset: Option<usize>,
    item_type: Option<&str>,
    query: Option<&str>,
) -> LookupCrateRequest {
    LookupCrateRequest {
        name: "crate".to_string(),
        limit,
        offset,
        item_type: item_type.map(|s| s.to_string()),
        query: query.map(|s| s.to_string()),
    }
}

fn description_html(description: Option<&str>) -> String {
    description
        .map(|d| format!(r#"<details class="toggle top-doc" open><summary class="hideme"><span>Expand description</span></summary><div class="docblock"><p>{}</p></div></details>"#, d))
        .unwrap_or_default()
}

fn function_html(name: &str, signature: &str, description: Option<&str>) -> String {
    format!(
        r#"<!DOCTYPE html><html><head><title>{}</title></head><body>
      <pre class="rust item-decl"><code>{}</code></pre>
      {}
      </body></html>"#,
        name,
        signature,
        description_html(description)
    )
}

fn struct_html(
    name: &str,
    signature: &str,
    description: Option<&str>,
    methods: &[(String, String, Option<String>)],
) -> String {
    let methods_html = methods
        .iter()
        .map(|(_method_name, method_sig, method_desc)| {
            let method_desc_html = method_desc
                .as_ref()
                .map(|d| format!(r#"<div class="docblock"><p>{}</p></div>"#, d))
                .unwrap_or_default();
            format!(
                r#"<div class="method"><div class="code-header">{}</div>{}</div>"#,
                method_sig, method_desc_html
            )
        })
        .collect::<Vec<_>>()
        .join("");
    format!(
        r#"<!DOCTYPE html><html><head><title>{}</title></head><body>
      <pre class="rust item-decl"><code>{}</code></pre>
      {}
      <div class="impl-items">{}</div>
      </body></html>"#,
        name,
        signature,
        description_html(description),
        methods_html
    )
}

fn enum_html(name: &str, signature: &str, description: Option<&str>, variants: &[String]) -> String {
    let variants_html = variants
        .iter()
        .map(|variant| {
            format!(r#"<div class="variant"><div class="code-header">{}</div></div>"#, variant)
        })
        .collect::<Vec<_>>()
        .join("");
    format!(
        r#"<!DOCTYPE html><html><head><title>{}</title></head><body>
      <pre class="rust item-decl"><code>{}</code></pre>
      {}
      <div class="variants">{}</div>
      </body></html>"#,
        name,
        signature,
        description_html(description),
        variants_html
    )
}

fn module_html(name: &str, description: Option<&str>, items: &[String]) -> String {
    let items_html = items
        .iter()
        .map(|item| format!("<div class=\"item-name\"><a href=\"#\">{}</a></div>", item))
        .collect::<Vec<_>>()
        .join("");
    format!(
        r#"<!DOCTYPE html><html><head><title>{}</title></head><body>
      <pre class="rust item-decl"><code>mod {}</code></pre>
      {}
      <div class="item-table">{}</div>
      </body></html>"#,
        name,
        name,
        description_html(description),
        items_html
    )
}

fn dir_entry(name: &str, is_dir: bool) -> DirEntry {
    DirEntry { name: name.to_string(), is_dir }
}

#[test]
fn list_crates() {
    let entries = vec![
        dir_entry("crate", true),
        dir_entry("crate_a", true),
        dir_entry("crate_b", true),
        dir_entry("crate_c", true),
        dir_entry("static.files", true),
    ];
    let crates = crate_docs::list_crates(entries);
    assert_eq!(crates, vec!["crate", "crate_a", "crate_b", "crate_c"]);
}

#[test]
fn parse_function() {
    let html = function_html("add", "pub fn add(a: i32, b: i32) -> i32", Some("Adds two numbers together."));
    let root = dir(vec![("fn.add.html", Node::File(html))]);
    let result = lookup(&root, &request(None, None, None, None)).unwrap();
    assert_eq!(
        result.items,
        vec![Item::Function {
            name: "add".to_string(),
            signature: "pub fn add(a: i32, b: i32) -> i32".to_string(),
            description: Some("Adds two numbers together.".to_string()),
        }]
    );
}

#[test]
fn parse_struct_with_methods() {
    let methods = vec![
        ("new".to_string(), "fn new() -> Self".to_string(), Some("Creates a new instance.".to_string())),
        ("get_value".to_string(), "fn get_value(&self) -> i32".to_string(), None),
    ];
    let html = struct_html(
        "MyStruct",
        "pub struct MyStruct { value: i32 }",
        Some("A simple struct with a value."),
        &methods,
    );
    let root = dir(vec![("struct.MyStruct.html", Node::File(html))]);
    let result = lookup(&root, &request(None, None, None, None)).unwrap();
    assert_eq!(
        result.items,
        vec![Item::Struct {
            name: "MyStruct".to_string(),
            signature: "pub struct MyStruct { value: i32 }".to_string(),
            description: Some("A simple struct with a value.".to_string()),
            methods: vec![
                Method {
                    name: "new".to_string(),
                    signature: "fn new() -> Self".to_string(),
                    description: Some("Creates a new instance.".to_string()),
                },
                Method {
                    name: "get_value".to_string(),
                    signature: "fn get_value(&self) -> i32".to_string(),
                    description: None,
                },
            ],
        }]
    );
}

#[test]
fn parse_enum_with_variants() {
    let variants = vec!["Success".to_string(), "Error(String)".to_string()];
    let html = enum_html(
        "Result",
        "pub enum Result",
        Some("A type representing either success or failure."),
        &variants,
    );
    let root = dir(vec![("enum.Result.html", Node::File(html))]);
    let result = lookup(&root, &request(None, None, None, None)).unwrap();
    assert_eq!(
        result.items,
        vec![Item::Enum {
            name: "Result".to_string(),
            signature: "pub enum Result".to_string(),
            description: Some("A type representing either success or failure.".to_string()),
            variants: vec!["Success".to_string(), "Error(String)".to_string()],
        }]
    );
}

#[test]
fn parse_module() {
    let items = vec!["function_a".to_string(), "struct_b".to_string()];
    let html = module_html("utils", Some("Utility functions and types."), &items);
    let root = dir(vec![("module.index.html", Node::File(html))]);
    let result = lookup(&root, &request(None, None, None, None)).unwrap();
    assert_eq!(
        result.items,
        vec![Item::Module {
            name: "index".to_string(),
            description: Some("Utility functions and types.".to_string()),
            items: vec!["function_a".to_string(), "struct_b".to_string()],
        }]
    );
}

#[test]
fn filter_by_item_type() {
    let function = function_html("add", "pub fn add(a: i32, b: i32) -> i32", None);
    let structure = struct_html("MyStruct", "pub struct MyStruct", None, &[]);
    let root = dir(vec![
        ("fn.add.html", Node::File(function)),
        ("struct.MyStruct.html", Node::File(structure)),
    ]);
    let result = lookup(&root, &request(None, None, Some("function"), None)).unwrap();
    assert_eq!(
        result.items,
        vec![Item::Function {
            name: "add".to_string(),
            signature: "pub fn add(a: i32, b: i32) -> i32".to_string(),
            description: None,
        }]
    );
}

#[test]
fn filter_by_query() {
    let add = function_html("add", "pub fn add(a: i32, b: i32) -> i32", Some("Adds numbers"));
    let subtract = function_html(
        "subtract",
        "pub fn subtract(a: i32, b: i32) -> i32",
        Some("Subtracts numbers"),
    );
    let root = dir(vec![
        ("fn.add.html", Node::File(add)),
        ("fn.subtract.html", Node::File(subtract)),
    ]);
    let result = lookup(&root, &request(None, None, None, Some("add"))).unwrap();
    assert_eq!(
        result.items,
        vec![Item::Function {
            name: "add".to_string(),
            signature: "pub fn add(a: i32, b: i32) -> i32".to_string(),
            description: Some("Adds numbers".to_string()),
        }]
    );
}

#[test]
fn pagination() {
    let files = (0..5)
        .map(|i| {
            (
                format!("fn.func_{}.html", i),
                Node::File(function_html(&format!("func_{}", i), &format!("pub fn func_{}()", i), None)),
            )
        })
        .collect::<Vec<_>>();
    let root = Node::Dir(files);
    let result = lookup(&root, &request(Some(2), Some(1), None, None)).unwrap();
    assert_eq!(result.items.len(), 2);
}

#[test]
fn extract_item_name() {
    assert_eq!(crate_docs::extract_item_name("fn.add.html").unwrap(), "add");
    assert_eq!(crate_docs::extract_item_name("struct.MyStruct.html").unwrap(), "MyStruct");
    assert_eq!(crate_docs::extract_item_name("enum.Result.html").unwrap(), "Result");
    assert_eq!(crate_docs::extract_item_name("module.index.html").unwrap(), "index");
    assert!(crate_docs::extract_item_name("invalid").is_err());
    assert!(crate_docs::extract_item_name("fn.add.txt").is_err());
}

#[test]
fn extract_method_name() {
    assert_eq!(crate_docs::extract_method_name("fn new() -> Self"), "new");
    assert_eq!(crate_docs::extract_method_name("fn get_value(&self) -> i32"), "get_value");
    assert_eq!(
        crate_docs::extract_method_name("fn complex_method<T>(self, param: T) where T: Clone"),
        "complex_method<T>"
    );
    assert_eq!(crate_docs::extract_method_name("invalid signature"), "unknown");
}

#[test]
fn html_to_text() {
    assert_eq!(
        crate_docs::html_to_text("<p>Hello <strong>world</strong></p>".to_string()),
        "Hello world"
    );
    assert_eq!(
        crate_docs::html_to_text("&lt;div&gt; &amp; &quot;test&quot;".to_string()),
        "<div> & \"test\""
    );
    assert_eq!(crate_docs::html_to_text("   Multiple    spaces   ".to_string()), "Multiple spaces");
    assert_eq!(
        crate_docs::html_to_text("<code>fn test() -&gt; bool</code>".to_string()),
        "fn test() -> bool"
    );
}

#[test]
fn nested_directories() {
    let html = function_html("nested_func", "pub fn nested_func()", None);
    let root = dir(vec![("submodule", dir(vec![("fn.nested_func.html", Node::File(html))]))]);
    let result = lookup(&root, &request(None, None, None, None)).unwrap();
    assert_eq!(
        result.items,
        vec![Item::Function {
            name: "nested_func".to_string(),
            signature: "pub fn nested_func()".to_string(),
            description: None,
        }]
    );
}
