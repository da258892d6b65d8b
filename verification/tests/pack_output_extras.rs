use infiniloom_cli::pack_json::JsonExtrasError;
use infiniloom_cli::models::OutputFormat;
use infiniloom_cli::pack_extras::{
    append_git_context_markdown, append_git_context_plain, append_git_context_toon,
    append_git_context_yaml, apply_pack_extras, GitHistory, PackExtras, RecentCommit,
    SecurityIssueEntry, TokenTreeEntry, UncommittedChange,
};

fn history() -> GitHistory {
    GitHistory {
        commits: vec![RecentCommit {
            short_hash: "abc123".to_owned(),
            message: "Fix \"bug\"".to_owned(),
            author: "Bo".to_owned(),
        }],
        changed_files: vec![UncommittedChange { status: "M".to_owned(), path: "src/a.rs".to_owned() }],
    }
}

fn extras() -> PackExtras {
    PackExtras {
        header_text: Some("HEAD".to_owned()),
        instructions: Some("Do <this>\nthen that".to_owned()),
        token_tree: Some(vec![TokenTreeEntry { path: "src/a.rs".to_owned(), tokens: 12 }]),
        security_issues: Some(vec![SecurityIssueEntry {
            file: "cfg.py".to_owned(),
            line: 3,
            kind: "api_key".to_owned(),
            severity: "High".to_owned(),
        }]),
        git_history: Some(history()),
    }
}

fn none() -> PackExtras {
    PackExtras { header_text: None, instructions: None, token_tree: None, security_issues: None, git_history: None }
}

#[test]
fn git_context_markdown_and_plain() {
    let mut md = String::from("x");
    append_git_context_markdown(&mut md, &history());
    assert_eq!(md, "x\n\n## Recent Commits\n\n- **abc123** Fix \"bug\" - Bo\n\n\n## Uncommitted Changes\n\n- [M] src/a.rs\n");
    let mut plain = String::new();
    append_git_context_plain(&mut plain, &history());
    assert_eq!(plain, "\n\nRECENT COMMITS\n--------------\nabc123 Fix \"bug\" - Bo\n\n\nUNCOMMITTED CHANGES\n-------------------\n[M] src/a.rs\n");
}

#[test]
fn git_context_toon_and_yaml() {
    let mut toon = String::new();
    append_git_context_toon(&mut toon, &history());
    assert_eq!(toon, "\n\nrecent_commits[1]{hash,message,author}:\n  abc123,Fix \"bug\",Bo\n\n\nuncommitted_changes[1]{status,path}:\n  M,src/a.rs\n");
    let mut yaml = String::new();
    append_git_context_yaml(&mut yaml, &history());
    assert_eq!(yaml, "\nrecent_commits:\n  - hash: \"abc123\"\n    message: \"Fix \\\"bug\\\"\"\n    author: \"Bo\"\n\nuncommitted_changes:\n  - status: \"M\"\n    path: \"src/a.rs\"\n");
}

#[test]
fn empty_history_adds_nothing() {
    let empty = GitHistory { commits: vec![], changed_files: vec![] };
    let mut s = String::from("body");
    append_git_context_markdown(&mut s, &empty);
    append_git_context_toon(&mut s, &empty);
    assert_eq!(s, "body");
}

#[test]
fn json_extras_are_inserted_as_keys() {
    let out = apply_pack_extras("{\"files\": []}".to_owned(), OutputFormat::Json, "gpt-4o", &extras()).unwrap();
    let v: serde_json::Value = serde_json::from_str(&out).unwrap();
    let obj = v.as_object().unwrap();
    let mut keys: Vec<&str> = obj.keys().map(|k| k.as_str()).collect();
    keys.sort();
    assert_eq!(keys, vec!["files", "header_text", "instructions", "security_scan", "token_tree"]);
    assert_eq!(obj["header_text"], "HEAD");
    assert_eq!(obj["token_tree"]["model"], "gpt-4o");
    assert_eq!(obj["token_tree"]["files"][0]["path"], "src/a.rs");
    assert_eq!(obj["token_tree"]["files"][0]["tokens"], 12);
    assert_eq!(obj["security_scan"]["issues_found"], 1);
    assert_eq!(obj["security_scan"]["issues"][0]["severity"], "High");
    assert!(out.contains("\n  "));
}

#[test]
fn json_without_extras_is_rewritten_pretty() {
    let out = apply_pack_extras("{\"a\":1}".to_owned(), OutputFormat::Json, "m", &none()).unwrap();
    assert_eq!(out, "{\n  \"a\": 1\n}");
}

#[test]
fn json_extras_need_an_object() {
    assert_eq!(
        apply_pack_extras("not json".to_owned(), OutputFormat::Json, "m", &extras()),
        Err(JsonExtrasError::InvalidJson)
    );
    assert_eq!(
        apply_pack_extras("[1, 2]".to_owned(), OutputFormat::Json, "m", &extras()),
        Err(JsonExtrasError::NotAnObject)
    );
}

#[test]
fn markdown_extras_exact() {
    let out = apply_pack_extras("BODY".to_owned(), OutputFormat::Markdown, "gpt-4o", &extras()).unwrap();
    let expected = [
        "HEAD\n\nBODY",
        "\n\n## Recent Commits\n\n- **abc123** Fix \"bug\" - Bo\n",
        "\n\n## Uncommitted Changes\n\n- [M] src/a.rs\n",
        "\n\n## Security Scan Results\n\nFound 1 potential security issues.\n\n- [High] api_key in cfg.py (line 3)\n",
        "\n\n## Token Tree\n\n| File | Tokens (gpt-4o) |\n|------|--------|\n| src/a.rs | 12 |\n",
        "\n\n## Instructions\n\nDo <this>\nthen that",
    ]
    .concat();
    assert_eq!(out, expected);
}

#[test]
fn plain_extras_exact() {
    let mut x = extras();
    x.git_history = None;
    let out = apply_pack_extras("BODY".to_owned(), OutputFormat::Plain, "gpt-4o", &x).unwrap();
    let expected = [
        "HEAD\n\nBODY",
        "\n\nSECURITY SCAN RESULTS\n----------------------\nFound 1 potential security issues.\n- [High] api_key in cfg.py (line 3)\n",
        "\n\nTOKEN TREE (gpt-4o)\n----------------------\n- src/a.rs: 12\n",
        "\n\nINSTRUCTIONS\n------------\nDo <this>\nthen that",
    ]
    .concat();
    assert_eq!(out, expected);
}

#[test]
fn toon_extras_exact() {
    let mut x = extras();
    x.git_history = None;
    let out = apply_pack_extras("BODY".to_owned(), OutputFormat::Toon, "gpt-4o", &x).unwrap();
    let expected = [
        "header_text: |\n  HEAD\n\nBODY",
        "\n\nsecurity_scan[1]{severity,kind,file,line}:\n  High,api_key,cfg.py,3\n",
        "\n\ntoken_tree_model: gpt-4o\ntoken_tree[1]{path,tokens}:\n  src/a.rs,12\n",
        "\n\ninstructions: |\n  Do <this>\n  then that\n",
    ]
    .concat();
    assert_eq!(out, expected);
}

#[test]
fn yaml_extras_exact() {
    let mut x = extras();
    x.git_history = None;
    let out = apply_pack_extras("body: 1".to_owned(), OutputFormat::Yaml, "gpt-4o", &x).unwrap();
    let expected = [
        "body: 1\n",
        "\nheader_text: |\n  HEAD\n",
        "\ninstructions: |\n  Do <this>\n  then that\n",
        "\ntoken_tree:\n  model: \"gpt-4o\"\n  files:\n    - path: \"src/a.rs\"\n      tokens: 12\n",
        "\nsecurity_scan:\n  issues_found: 1\n  issues:\n    - file: \"cfg.py\"\n      line: 3\n      kind: \"api_key\"\n      severity: \"High\"\n",
    ]
    .concat();
    assert_eq!(out, expected);
}

#[test]
fn xml_extras_go_before_the_last_closing_tag() {
    let mut x = extras();
    x.instructions = None;
    x.security_issues = None;
    let out = apply_pack_extras("<repository>\n</repository>\n".to_owned(), OutputFormat::Xml, "gpt-4o", &x).unwrap();
    let expected = [
        "<repository>\n",
        "\n  <extras>\n    <header_text>HEAD</header_text>\n",
        "    <token_tree model=\"gpt-4o\">\n      <file path=\"src/a.rs\" tokens=\"12\"/>\n    </token_tree>\n  </extras>\n",
        "</repository>\n",
    ]
    .concat();
    assert_eq!(out, expected);
}

#[test]
fn xml_without_extras_is_unchanged_and_without_closing_tag_appends() {
    let mut x = none();
    x.git_history = Some(history());
    assert_eq!(apply_pack_extras("<r/>".to_owned(), OutputFormat::Xml, "m", &x).unwrap(), "<r/>");
    let mut y = none();
    y.header_text = Some("a&b".to_owned());
    assert_eq!(
        apply_pack_extras("<r/>".to_owned(), OutputFormat::Xml, "m", &y).unwrap(),
        "<r/>\n  <extras>\n    <header_text>a&amp;b</header_text>\n  </extras>\n"
    );
}

#[test]
fn no_extras_leave_text_output_as_it_is() {
    for f in [OutputFormat::Xml, OutputFormat::Markdown, OutputFormat::Plain, OutputFormat::Toon] {
        assert_eq!(apply_pack_extras("BODY".to_owned(), f, "m", &none()).unwrap(), "BODY");
    }
    assert_eq!(apply_pack_extras("a: 1".to_owned(), OutputFormat::Yaml, "m", &none()).unwrap(), "a: 1\n");
    assert_eq!(apply_pack_extras("a: 1\n".to_owned(), OutputFormat::Yaml, "m", &none()).unwrap(), "a: 1\n");
}

#[test]
fn json_extras_replace_existing_keys() {
    let mut x = none();
    x.header_text = Some("NEW".to_owned());
    let out = apply_pack_extras("{\"header_text\": \"old\", \"z\": true}".to_owned(), OutputFormat::Json, "m", &x).unwrap();
    assert_eq!(out, "{\n  \"header_text\": \"NEW\",\n  \"z\": true\n}");
}
