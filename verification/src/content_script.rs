//! The script injected into the content page: a guard that keeps the page
//! transparent, the same-window navigation patch, and on Fenbi pages the
//! site styles and the image transparency script.

use vstd::prelude::*;
use crate::web_url::{is_fenbi_url, is_fenbi_address};
use crate::text::{has_prefix, has_suffix};

verus! {

/// Style that clears the backgrounds of any page shown transparently.
pub const GENERIC_TRANSPARENCY_CSS: &'static str = r#"
html, body {
  background: transparent !important;
  background-color: transparent !important;
  background-image: none !important;
}
*, *::before, *::after {
  background-color: transparent !important;
  background-image: none !important;
  box-shadow: none !important;
}
img, svg, canvas, video, picture, iframe {
  opacity: 1 !important;
}
"#;

/// Style that clears Fenbi's page chrome backgrounds and shadows.
pub const FENBI_TRANSPARENCY_CSS: &'static str = r#"
html, body, #app, #root, .app, .container, .layout {
  background: transparent !important;
  background-color: transparent !important;
}
[class*='header'],
[class*='navbar'],
[class*='nav-bar'],
[class*='toolbar'],
[class*='tabbar'],
[class*='shadow'],
[style*='box-shadow'] {
  box-shadow: none !important;
}
"#;

/// Style that darkens text on Fenbi pages so it stays legible when transparent.
pub const FENBI_PERSONALIZED_CSS: &'static str = r#"
body, body * {
  text-shadow: none !important;
}
a,
button,
span,
p,
strong,
b,
em,
label,
li,
div,
h1,
h2,
h3,
h4,
h5,
h6 {
  color: rgba(18, 18, 18, 0.96) !important;
  -webkit-text-fill-color: rgba(18, 18, 18, 0.96) !important;
}
"#;

/// Script that makes the light backgrounds of Fenbi question images transparent.
pub const FENBI_IMAGE_TRANSPARENCY_SCRIPT: &'static str = r#"
(() => {
  if (!/(\.|^)fenbi\.com$/i.test(location.hostname)) return;
  const MARK = 'moyuImageTransparency';
  const FALLBACK_CLASS = 'moyu-image-transparent-fallback';
  const REQUEST_PREFIX = '__MOYU_CONTENT_IMAGE__';
  const MAX_PIXELS = 2400000;
  const MAX_EDGE_SAMPLES = 1600;
  const STYLE_ID = '__moyu_fenbi_image_transparency__';
  let logCount = 0;
  let scanCount = 0;
  let requestCount = 0;

  function safeText(value, max = 220) {
    const text = String(value ?? '');
    return text.length > max ? `${text.slice(0, max)}...` : text;
  }

  function debug(event, payload = {}) {
    if (logCount >= 80) return;
    logCount += 1;
    const message = `[fenbi-image-transparency] ${event} ${JSON.stringify(payload)}`;
    try {
      document.title = `__MOYU_CONTENT_LOG__${safeText(message, 700)}`;
    } catch (_) {}
  }

  function imageInfo(img) {
    const src = img.currentSrc || img.src || '';
    let parsed = null;
    try { parsed = src ? new URL(src, location.href) : null; } catch (_) {}
    return {
      src: safeText(src, 220),
      host: parsed?.host || '',
      sameOrigin: parsed ? parsed.origin === location.origin : false,
      width: img.naturalWidth || 0,
      height: img.naturalHeight || 0
    };
  }

  function installStyle() {
    let style = document.getElementById(STYLE_ID);
    if (!style) {
      style = document.createElement('style');
      style.id = STYLE_ID;
      document.documentElement.appendChild(style);
    }
    style.textContent = `
      img.${FALLBACK_CLASS} {
        filter: grayscale(1) contrast(1.85) brightness(0.92) !important;
        mix-blend-mode: multiply !important;
      }
    `;
  }

  function requestRustProcess(img) {
    if (!img || img.dataset.moyuRustRequest === 'busy' || img.dataset.moyuRustRequest === 'done') {
      return false;
    }
    const src = img.currentSrc || img.src || '';
    if (!src.startsWith('https://')) return false;
    requestCount += 1;
    const id = `img-${Date.now()}-${requestCount}`;
    img.dataset.moyuRustRequest = 'busy';
    img.dataset.moyuRustRequestId = id;
    img.classList.add(FALLBACK_CLASS);
    try {
      document.title = `${REQUEST_PREFIX}${JSON.stringify({ id, url: src, referer: location.href })}`;
      debug('rust-request', { id, src: safeText(src, 180) });
      return true;
    } catch (_) {
      img.dataset.moyuRustRequest = 'failed';
      return false;
    }
  }

  window.__moyuFenbiImageTransparencyReceive = function(id, dataUrl, ok) {
    const img = document.querySelector(`img[data-moyu-rust-request-id="${id}"]`);
    if (!img) return;
    if (ok && dataUrl && dataUrl.startsWith('data:image/png;base64,')) {
      img.dataset.moyuOriginalSrc = img.currentSrc || img.src || '';
      img.src = dataUrl;
      img.classList.remove(FALLBACK_CLASS);
      img.dataset[MARK] = 'done';
      img.dataset.moyuRustRequest = 'done';
      debug('rust-success', { id, src: safeText(img.dataset.moyuOriginalSrc || '', 180) });
    } else {
      img.classList.add(FALLBACK_CLASS);
      img.dataset[MARK] = 'done';
      img.dataset.moyuRustRequest = 'failed';
      debug('rust-fallback', { id, src: safeText(img.currentSrc || img.src || '', 180) });
    }
  };

  function canProcess(img, info) {
    if (!img || img.dataset[MARK] === 'done' || img.dataset[MARK] === 'busy') return false;
    const src = img.currentSrc || img.src || '';
    if (!src || src.startsWith('data:') || src.startsWith('blob:')) {
      return false;
    }
    const width = img.naturalWidth || 0;
    const height = img.naturalHeight || 0;
    if (width < 12 || height < 12) {
      return false;
    }
    if (width * height > MAX_PIXELS) {
      debug('skip-large', { pixels: width * height, ...info });
      return false;
    }
    return true;
  }

  function edgeBackground(data, width, height) {
    const samples = [];
    const step = Math.max(1, Math.floor((width * 2 + height * 2) / MAX_EDGE_SAMPLES));
    function add(x, y) {
      const i = (y * width + x) * 4;
      const a = data[i + 3];
      if (a < 220) return;
      samples.push([data[i], data[i + 1], data[i + 2]]);
    }
    for (let x = 0; x < width; x += step) {
      add(x, 0);
      add(x, height - 1);
    }
    for (let y = 0; y < height; y += step) {
      add(0, y);
      add(width - 1, y);
    }
    if (!samples.length) return [255, 255, 255];
    samples.sort((a, b) => (a[0] + a[1] + a[2]) - (b[0] + b[1] + b[2]));
    const bright = samples.slice(Math.floor(samples.length * 0.55));
    const pool = bright.length ? bright : samples;
    const sum = pool.reduce((acc, item) => {
      acc[0] += item[0];
      acc[1] += item[1];
      acc[2] += item[2];
      return acc;
    }, [0, 0, 0]);
    return sum.map((value) => value / pool.length);
  }

  function processPixels(imageData) {
    const data = imageData.data;
    const bg = edgeBackground(data, imageData.width, imageData.height);
    let visible = 0;
    let transparent = 0;
    let faint = 0;
    for (let i = 0; i < data.length; i += 4) {
      const r = data[i];
      const g = data[i + 1];
      const b = data[i + 2];
      const a = data[i + 3];
      if (a < 16) continue;
      const luminance = 0.2126 * r + 0.7152 * g + 0.0722 * b;
      const bgDistance = Math.abs(r - bg[0]) + Math.abs(g - bg[1]) + Math.abs(b - bg[2]);
      const isLightBg = luminance > 205 && bgDistance < 92;
      const isNearWhite = luminance > 232 && Math.max(r, g, b) - Math.min(r, g, b) < 34;
      if (isLightBg || isNearWhite) {
        const fade = Math.max(0, Math.min(1, (245 - luminance) / 42));
        data[i + 3] = Math.round(26 * fade);
        if (data[i + 3] <= 4) transparent += 1;
        else faint += 1;
        continue;
      }
      const ink = Math.max(0, Math.min(235, (luminance - 18) * 0.42));
      data[i] = ink;
      data[i + 1] = ink;
      data[i + 2] = ink;
      data[i + 3] = Math.max(a, 236);
      visible += 1;
    }
    return {
      visible,
      transparent,
      faint,
      background: bg.map((value) => Math.round(value))
    };
  }

  async function processImage(img) {
    const baseInfo = imageInfo(img);
    if (!canProcess(img, baseInfo)) return;
    img.dataset[MARK] = 'busy';
    try {
      if (!img.complete) {
        await new Promise((resolve, reject) => {
          img.addEventListener('load', resolve, { once: true });
          img.addEventListener('error', reject, { once: true });
        });
      }
      const loadedInfo = imageInfo(img);
      if (!canProcess(img, loadedInfo) && img.dataset[MARK] !== 'busy') return;
      const width = img.naturalWidth;
      const height = img.naturalHeight;
      const canvas = document.createElement('canvas');
      canvas.width = width;
      canvas.height = height;
      const ctx = canvas.getContext('2d', { willReadFrequently: true });
      if (!ctx) throw new Error('canvas unavailable');
      ctx.drawImage(img, 0, 0, width, height);
      const imageData = ctx.getImageData(0, 0, width, height);
      const stats = processPixels(imageData);
      if (stats.visible < Math.max(12, width * height * 0.002)) {
        throw new Error(`content too sparse visible=${stats.visible}`);
      }
      ctx.putImageData(imageData, 0, 0);
      img.dataset.moyuOriginalSrc = img.currentSrc || img.src || '';
      img.src = canvas.toDataURL('image/png');
      img.classList.remove(FALLBACK_CLASS);
      img.dataset[MARK] = 'done';
      debug('process-success', {
        ...loadedInfo,
        transparentRatio: Number((stats.transparent / Math.max(1, width * height)).toFixed(3)),
        visibleRatio: Number((stats.visible / Math.max(1, width * height)).toFixed(3))
      });
    } catch (error) {
      const message = String(error?.message || error || '');
      const likelyCrossOrigin = /taint|cross-origin|security/i.test(message);
      debug('process-fallback', {
        ...imageInfo(img),
        errorMessage: safeText(message, 220),
        likelyCrossOrigin
      });
      if (!likelyCrossOrigin || !requestRustProcess(img)) {
        img.classList.add(FALLBACK_CLASS);
        img.dataset[MARK] = 'done';
      }
    }
  }

  function scan(root = document) {
    installStyle();
    scanCount += 1;
    const images = Array.from(root.querySelectorAll?.('img') || []);
    if (scanCount <= 5 || scanCount % 20 === 0) {
      const backgroundCandidates = Array.from(document.querySelectorAll('[style*="background"], [class*="image"], [class*="img"], [class*="pic"]'))
        .slice(0, 80)
        .filter((node) => {
          try { return /url\(/i.test(getComputedStyle(node).backgroundImage || ''); } catch (_) { return false; }
        });
      debug('scan-summary', {
        scanCount,
        imageCount: images.length,
        pendingImages: images.filter((img) => img.dataset[MARK] !== 'done' && img.dataset[MARK] !== 'busy').length,
        canvasCount: document.querySelectorAll('canvas').length,
        backgroundImageCandidates: backgroundCandidates.length
      });
    }
    images.forEach((img) => processImage(img));
  }

  if (!window.__moyuFenbiImageTransparencyInstalled) {
    window.__moyuFenbiImageTransparencyInstalled = true;
    debug('install', {
      href: safeText(location.href, 180)
    });
    const observer = new MutationObserver((mutations) => {
      window.requestIdleCallback
        ? window.requestIdleCallback(() => scan(document), { timeout: 800 })
        : window.setTimeout(() => scan(document), 80);
    });
    observer.observe(document.documentElement, {
      childList: true,
      subtree: true,
      attributes: true,
      attributeFilter: ['src', 'srcset', 'style', 'class']
    });
    window.addEventListener('load', () => scan(document), { once: true });
    window.setInterval(() => scan(document), 2500);
  }
  scan(document);
})();
"#;

/// Script that keeps links and forms that open new windows in the current window.
pub const UNIVERSAL_SAME_WINDOW_NAVIGATION_SCRIPT: &'static str = r#"
(() => {
  if (window.__moyuUniversalSameWindowNavigationInstalled) return;
  window.__moyuUniversalSameWindowNavigationInstalled = true;
  const originalOpen = window.open;
  function normalizeTarget(target) {
    return target ? String(target).toLowerCase() : '';
  }
  function shouldReuseCurrentWindow(target) {
    const normalized = normalizeTarget(target);
    return normalized === '' || normalized === '_blank' || normalized === '_new';
  }
  function navigateCurrentWindow(url) {
    if (!url) return null;
    try { window.location.assign(url); } catch (_) { window.location.href = url; }
    return window;
  }
  const locationProxy = {
    assign: (url) => navigateCurrentWindow(url),
    replace: (url) => window.location.replace(url),
    get href() { return window.location.href; },
    set href(url) { navigateCurrentWindow(url); }
  };
  function popupProxy() {
    return new Proxy({}, {
      get(_target, prop) {
        if (prop === 'location') return locationProxy;
        if (prop === 'closed') return false;
        if (prop === 'focus' || prop === 'blur' || prop === 'close') return () => {};
        if (prop === 'opener') return window;
        return window[prop];
      },
      set(_target, prop, value) {
        if (prop === 'location') {
          navigateCurrentWindow(String(value || ''));
          return true;
        }
        return true;
      }
    });
  }
  window.open = function patchedWindowOpen(url, target, features) {
    if (shouldReuseCurrentWindow(target)) {
      if (url) navigateCurrentWindow(url);
      return popupProxy();
    }
    return originalOpen.call(window, url, target, features);
  };
  document.addEventListener('click', (event) => {
    const anchor = event.target && event.target.closest ? event.target.closest('a[href]') : null;
    if (!anchor) return;
    const target = normalizeTarget(anchor.getAttribute('target'));
    if (target !== '_blank' && target !== '_new') return;
    const href = anchor.href;
    if (!href || href.startsWith('javascript:')) return;
    event.preventDefault();
    event.stopPropagation();
    navigateCurrentWindow(href);
  }, true);
  document.addEventListener('submit', (event) => {
    const form = event.target;
    if (!form) return;
    const submitterTarget = normalizeTarget(event.submitter && event.submitter.getAttribute ? event.submitter.getAttribute('formtarget') : '');
    const formTarget = normalizeTarget(form.getAttribute && form.getAttribute('target'));
    const target = submitterTarget || formTarget;
    if (!shouldReuseCurrentWindow(target)) return;
    if (event.submitter && event.submitter.removeAttribute) {
      event.submitter.removeAttribute('formtarget');
    }
    if (form.removeAttribute) {
      form.removeAttribute('target');
    }
  }, true);
})();
"#;

/// The transparency guard script up to the style text.
pub const GUARD_SCRIPT_HEAD: &'static str = r#"
(() => {
  const STYLE_ID = '__moyu_transparent_guard__';
  const css = "#;

/// The transparency guard script after the style text.
pub const GUARD_SCRIPT_TAIL: &'static str = r#";
  function install() {
    let style = document.getElementById(STYLE_ID);
    if (!style) {
      style = document.createElement('style');
      style.id = STYLE_ID;
      document.documentElement.appendChild(style);
    }
    if (style.textContent !== css) {
      style.textContent = css;
    }
    document.documentElement.style.setProperty('background', 'transparent', 'important');
    document.documentElement.style.setProperty('background-color', 'transparent', 'important');
    if (document.body) {
      document.body.style.setProperty('background', 'transparent', 'important');
      document.body.style.setProperty('background-color', 'transparent', 'important');
    }
  }
  install();
  if (!window.__moyuTransparentGuardInstalled) {
    window.__moyuTransparentGuardInstalled = true;
    const observer = new MutationObserver(() => window.requestAnimationFrame(install));
    observer.observe(document.documentElement, {
      childList: true,
      subtree: true,
      attributes: true,
      attributeFilter: ['class', 'style']
    });
    window.setInterval(install, 500);
  }
})();
"#;

/// What `format!("{:?}", s)` makes of a string: its `Debug` form, quoted
/// and escaped.
pub uninterp spec fn debug_quoted(s: Seq<char>) -> Seq<char>;

/// Calls `format!("{:?}", s)` on a `&str`. Claimed: the result is the
/// function `debug_quoted` of the characters.
#[verifier::external_body]
fn quote_debug(s: &str) -> (res: String)
    ensures
        res@ == debug_quoted(s@),
{
    format!("{:?}", s)
}

/// The site styles: on a transparent Fenbi page, Fenbi's transparency
/// styles, followed by a newline and the legibility styles when the Fenbi
/// plugin is on; nothing otherwise.
pub open spec fn site_css(transparent: bool, is_fenbi: bool, fenbi_personalized: bool) -> Seq<char> {
    if transparent && is_fenbi {
        if fenbi_personalized {
            FENBI_TRANSPARENCY_CSS@ + "\n"@ + FENBI_PERSONALIZED_CSS@
        } else {
            FENBI_TRANSPARENCY_CSS@
        }
    } else {
        seq![]
    }
}

/// The script injected for `target_url`.
pub open spec fn init_script(target_url: Seq<char>, transparent: bool, fenbi_personalized: bool) -> Seq<
    char,
> {
    let is_fenbi = is_fenbi_address(target_url);
    let css = if transparent {
        GENERIC_TRANSPARENCY_CSS@
    } else {
        seq![]
    };
    let image = if transparent && is_fenbi && fenbi_personalized {
        FENBI_IMAGE_TRANSPARENCY_SCRIPT@
    } else {
        seq![]
    };
    GUARD_SCRIPT_HEAD@ + debug_quoted(css) + " + "@ + debug_quoted(
        site_css(transparent, is_fenbi, fenbi_personalized),
    ) + GUARD_SCRIPT_TAIL@ + UNIVERSAL_SAME_WINDOW_NAVIGATION_SCRIPT@ + "\n"@ + image + "\n"@
}

/// Builds the script injected into the content page (`content_init_script`).
pub fn content_init_script(target_url: &str, transparent: bool, fenbi_personalized: bool) -> (res:
    String)
    ensures
        res@ == init_script(target_url@, transparent, fenbi_personalized),
{
    let is_fenbi = is_fenbi_url(target_url);
    let site = if transparent && is_fenbi {
        if fenbi_personalized {
            String::from_str(FENBI_TRANSPARENCY_CSS).concat("\n").concat(FENBI_PERSONALIZED_CSS)
        } else {
            String::from_str(FENBI_TRANSPARENCY_CSS)
        }
    } else {
        String::new()
    };
    let image_script = if transparent && is_fenbi && fenbi_personalized {
        FENBI_IMAGE_TRANSPARENCY_SCRIPT
    } else {
        ""
    };
    let css = if transparent {
        GENERIC_TRANSPARENCY_CSS
    } else {
        ""
    };
    let quoted_css = quote_debug(css);
    let quoted_site = quote_debug(site.as_str());
    proof {
        reveal_strlit("");
    }
    assert(css@ == (if transparent {
        GENERIC_TRANSPARENCY_CSS@
    } else {
        seq![]
    }));
    assert(image_script@ == (if transparent && is_fenbi && fenbi_personalized {
        FENBI_IMAGE_TRANSPARENCY_SCRIPT@
    } else {
        seq![]
    }));
    let script = String::from_str(GUARD_SCRIPT_HEAD).concat(quoted_css.as_str()).concat(" + ").concat(
        quoted_site.as_str(),
    ).concat(GUARD_SCRIPT_TAIL).concat(UNIVERSAL_SAME_WINDOW_NAVIGATION_SCRIPT).concat("\n").concat(
        image_script,
    ).concat("\n");
    script
}

/// The start of the guard script when its style text begins with `css`.
pub open spec fn guard_start(css: Seq<char>) -> Seq<char> {
    GUARD_SCRIPT_HEAD@ + debug_quoted(css) + " + "@
}

/// In a transparent window the page's style text always begins with the
/// generic transparency CSS, whatever the address and the Fenbi plugin
/// switch; a Fenbi page with the plugin on also gets the image script at
/// the end. In an opaque window the style text is empty, there are no site
/// styles and no image script.
pub proof fn lemma_transparent_pages_get_generic_css(target_url: Seq<char>, fenbi_personalized: bool)
    ensures
        has_prefix(
            init_script(target_url, true, fenbi_personalized),
            guard_start(GENERIC_TRANSPARENCY_CSS@),
        ),
        is_fenbi_address(target_url) && fenbi_personalized ==> has_suffix(
            init_script(target_url, true, fenbi_personalized),
            FENBI_IMAGE_TRANSPARENCY_SCRIPT@ + "\n"@,
        ),
        init_script(target_url, false, fenbi_personalized) == guard_start(seq![]) + debug_quoted(
            seq![],
        ) + GUARD_SCRIPT_TAIL@ + UNIVERSAL_SAME_WINDOW_NAVIGATION_SCRIPT@ + "\n"@ + "\n"@,
{
    let is_fenbi = is_fenbi_address(target_url);
    let t = init_script(target_url, true, fenbi_personalized);
    let start = guard_start(GENERIC_TRANSPARENCY_CSS@);
    let rest = debug_quoted(site_css(true, is_fenbi, fenbi_personalized)) + GUARD_SCRIPT_TAIL@
        + UNIVERSAL_SAME_WINDOW_NAVIGATION_SCRIPT@ + "\n"@ + (if is_fenbi && fenbi_personalized {
        FENBI_IMAGE_TRANSPARENCY_SCRIPT@
    } else {
        seq![]
    }) + "\n"@;
    assert(t =~= start + rest);
    assert((start + rest).subrange(0, start.len() as int) =~= start);
    if is_fenbi && fenbi_personalized {
        let tail = FENBI_IMAGE_TRANSPARENCY_SCRIPT@ + "\n"@;
        let front = start + debug_quoted(site_css(true, is_fenbi, fenbi_personalized))
            + GUARD_SCRIPT_TAIL@ + UNIVERSAL_SAME_WINDOW_NAVIGATION_SCRIPT@ + "\n"@;
        assert(t =~= front + tail);
        assert((front + tail).subrange(t.len() - tail.len(), t.len() as int) =~= tail);
    }
    assert(site_css(false, is_fenbi, fenbi_personalized) == Seq::<char>::empty());
    assert(init_script(target_url, false, fenbi_personalized) =~= guard_start(seq![])
        + debug_quoted(seq![]) + GUARD_SCRIPT_TAIL@ + UNIVERSAL_SAME_WINDOW_NAVIGATION_SCRIPT@
        + "\n"@ + "\n"@);
}

} // verus!
