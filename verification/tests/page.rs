use cargo_goodtimes::page::{asset_kind, escape_script_close, render_page, AssetKind};

fn escape(s: &str) -> String {
    String::from_utf8(escape_script_close(s.as_bytes())).unwrap()
}

#[test]
fn assets_go_by_the_end_of_their_name() {
    assert_eq!(AssetKind::Script, asset_kind("index-Dk3f9.js"));
    assert_eq!(AssetKind::Style, asset_kind("index-a81c.css"));
    assert_eq!(AssetKind::Script, asset_kind(".js"));
    assert_eq!(AssetKind::Style, asset_kind(".css"));
    assert_eq!(AssetKind::Other, asset_kind("index.js.map"));
    assert_eq!(AssetKind::Other, asset_kind("logo.svg"));
    assert_eq!(AssetKind::Other, asset_kind("js"));
    assert_eq!(AssetKind::Other, asset_kind(""));
    assert_eq!(AssetKind::Other, asset_kind("style.CSS"));
    assert_eq!(AssetKind::Script, asset_kind("a.css.js"));
    assert_eq!(AssetKind::Script, asset_kind("\u{e9}.js"));
}

#[test]
fn script_ends_are_escaped() {
    assert_eq!("<\\/script>", escape("</script>"));
    assert_eq!("a<\\/script>b<\\/script", escape("a</script>b</script"));
    assert_eq!("<\\/script<\\/script", escape("</script</script"));
    assert_eq!("<<\\/script", escape("<</script"));
}

#[test]
fn other_text_is_left_alone() {
    for s in ["", "{}", "</scrip", "</Script>", "< /script>", "<script>", "</scrip</scrip"] {
        assert_eq!(s, escape(s));
    }
}

#[test]
fn escaping_agrees_with_replace() {
    for s in [
        "{\"name\":\"</script><script>alert(1)</script>\"}",
        "</script",
        "x</scrip</script>y",
        "</</script/script>",
    ] {
        assert_eq!(s.replace("</script", "<\\/script"), escape(s));
    }
}

#[test]
fn the_page_holds_style_graph_and_script() {
    let page = render_page(b"body{}", b"run()", b"{\"nodes\":{}}");
    let expected = "<!DOCTYPE html>\n\
<html lang=\"en\">\n\
<head>\n\
<meta charset=\"UTF-8\" />\n\
<meta name=\"viewport\" content=\"width=device-width, initial-scale=1.0\" />\n\
<title>cargo goodtimes</title>\n\
<style>body{}</style>\n\
</head>\n\
<body>\n\
<div id=\"root\"></div>\n\
<script>window.__GRAPH_DATA__ = {\"nodes\":{}};</script>\n\
<script type=\"module\">run()</script>\n\
</body>\n\
</html>";
    assert_eq!(expected, String::from_utf8(page).unwrap());
}

#[test]
fn only_the_graph_is_escaped() {
    let page = String::from_utf8(render_page(b"</script", b"</script", b"</script")).unwrap();
    assert!(page.contains("<style></script</style>"));
    assert!(page.contains("window.__GRAPH_DATA__ = <\\/script;</script>"));
    assert!(page.contains("<script type=\"module\"></script</script>"));
}
