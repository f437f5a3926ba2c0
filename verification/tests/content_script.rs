use moyu::content_script::{
    content_init_script, FENBI_IMAGE_TRANSPARENCY_SCRIPT, FENBI_PERSONALIZED_CSS, FENBI_TRANSPARENCY_CSS,
    GENERIC_TRANSPARENCY_CSS, UNIVERSAL_SAME_WINDOW_NAVIGATION_SCRIPT,
};

/// The whole script written out with `format!`, to compare against.
fn expected(css: &str, site_css: &str, image_script: &str) -> String {
    format!(
        r#"
(() => {{
  const STYLE_ID = '__moyu_transparent_guard__';
  const css = {css:?} + {site_css:?};
  function install() {{
    let style = document.getElementById(STYLE_ID);
    if (!style) {{
      style = document.createElement('style');
      style.id = STYLE_ID;
      document.documentElement.appendChild(style);
    }}
    if (style.textContent !== css) {{
      style.textContent = css;
    }}
    document.documentElement.style.setProperty('background', 'transparent', 'important');
    document.documentElement.style.setProperty('background-color', 'transparent', 'important');
    if (document.body) {{
      document.body.style.setProperty('background', 'transparent', 'important');
      document.body.style.setProperty('background-color', 'transparent', 'important');
    }}
  }}
  install();
  if (!window.__moyuTransparentGuardInstalled) {{
    window.__moyuTransparentGuardInstalled = true;
    const observer = new MutationObserver(() => window.requestAnimationFrame(install));
    observer.observe(document.documentElement, {{
      childList: true,
      subtree: true,
      attributes: true,
      attributeFilter: ['class', 'style']
    }});
    window.setInterval(install, 500);
  }}
}})();
{same_window_nav}
{image_script}
"#,
        css = css,
        site_css = site_css,
        same_window_nav = UNIVERSAL_SAME_WINDOW_NAVIGATION_SCRIPT,
        image_script = image_script
    )
}

#[test]
fn opaque_page_gets_only_the_guard_and_navigation_patch() {
    assert_eq!(content_init_script("https://www.fenbi.com/", false, true), expected("", "", ""));
}

#[test]
fn transparent_other_site_gets_generic_css() {
    assert_eq!(
        content_init_script("https://example.com/", true, true),
        expected(GENERIC_TRANSPARENCY_CSS, "", "")
    );
}

#[test]
fn transparent_fenbi_page_gets_site_styles_and_image_script() {
    let site = format!("{FENBI_TRANSPARENCY_CSS}\n{FENBI_PERSONALIZED_CSS}");
    assert_eq!(
        content_init_script("https://spa.fenbi.com/x", true, true),
        expected(GENERIC_TRANSPARENCY_CSS, &site, FENBI_IMAGE_TRANSPARENCY_SCRIPT)
    );
    assert_eq!(
        content_init_script("https://www.fenbi.com/", true, false),
        expected(GENERIC_TRANSPARENCY_CSS, FENBI_TRANSPARENCY_CSS, "")
    );
}
