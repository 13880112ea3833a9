//! Scripts that run in the browser.

use vstd::prelude::*;

use crate::json::{json_quote, json_quoted};
use crate::text::{has_part, part_stands_between};

verus! {

/// The collection script up to the flag that tells whether to look for links.
pub const COLLECT_HEAD: &'static str = r#"
(function(cb) {
    var _called = false;
    var done = function(data) {
        if (!_called) { _called = true; cb(JSON.stringify(data)); }
    };

    // Hard safety net: always resolve within 8s regardless
    var safetyTimer = setTimeout(function() {
        done({ issues:[], links:[], perf:{}, net:{}, lcp:null, cls:null });
    }, 8000);

    function runCollect() {
        clearTimeout(safetyTimer);
        try {
            // ── Runtime JS errors (captured by the pre-injected listener) ──────────
            var issues = [];
            var runtimeErrors = window.__webprobe_errors || [];
            for (var rei = 0; rei < runtimeErrors.length; rei++) {
                issues.push({ sev:'error', cat:'console_error', msg: runtimeErrors[rei] });
            }

            // ── Accessibility issues ───────────────────────────────────────────────
            document.querySelectorAll('img:not([alt])').forEach(function(el) {
                issues.push({ sev:'warning', cat:'accessibility',
                    msg:'Image missing alt attribute', el:el.outerHTML.slice(0,120) });
            });

            document.querySelectorAll(
                'input:not([type="hidden"]):not([type="submit"]):not([type="button"]):not([type="reset"]):not([type="image"]):not([aria-label]):not([aria-labelledby])'
            ).forEach(function(el) {
                if (!el.id || !document.querySelector('label[for="' + el.id + '"]')) {
                    issues.push({ sev:'warning', cat:'accessibility',
                        msg:'Input missing label / aria-label', el:el.outerHTML.slice(0,120) });
                }
            });

            document.querySelectorAll('button:not([aria-label]):not([aria-labelledby])').forEach(function(el) {
                if (!el.textContent.trim()) {
                    issues.push({ sev:'warning', cat:'accessibility',
                        msg:'Button has no accessible text', el:el.outerHTML.slice(0,120) });
                }
            });

            document.querySelectorAll('a:not([aria-label]):not([aria-labelledby])').forEach(function(el) {
                if (!el.textContent.trim() && !el.querySelector('img[alt]')) {
                    issues.push({ sev:'warning', cat:'accessibility',
                        msg:'Link has no accessible text', el:el.outerHTML.slice(0,120) });
                }
            });

            // Images without explicit width/height — causes layout shifts (CLS)
            document.querySelectorAll('img').forEach(function(el) {
                if (!el.getAttribute('width') || !el.getAttribute('height')) {
                    issues.push({ sev:'info', cat:'accessibility',
                        msg:'Image missing width/height attributes (may cause layout shift)',
                        el: el.outerHTML.slice(0,120) });
                }
            });

            // ── SEO / Security issues ─────────────────────────────────────────────
            var titleEl = document.querySelector('title');
            if (!titleEl || !titleEl.textContent.trim()) {
                issues.push({ sev:'warning', cat:'seo', msg:'Page is missing a <title> element' });
            } else {
                var titleLen = titleEl.textContent.trim().length;
                if (titleLen > 60) {
                    issues.push({ sev:'info', cat:'seo',
                        msg:'<title> is ' + titleLen + ' characters (recommended max: 60)' });
                }
            }
            if (!document.documentElement.getAttribute('lang')) {
                issues.push({ sev:'warning', cat:'accessibility',
                    msg:'<html> element is missing a lang attribute' });
            }
            if (!document.querySelector('meta[name="viewport"]')) {
                issues.push({ sev:'info', cat:'seo',
                    msg:'Missing <meta name="viewport"> \u2014 page may render poorly on mobile' });
            }
            if (!document.querySelector('meta[name="description"]')) {
                issues.push({ sev:'info', cat:'seo', msg:'Missing <meta name="description">' });
            }

            // Duplicate <h1> — bad for SEO
            var h1Count = document.querySelectorAll('h1').length;
            if (h1Count > 1) {
                issues.push({ sev:'warning', cat:'seo',
                    msg: h1Count + ' <h1> elements found on this page (should be exactly one)' });
            }

            // <a target="_blank"> without rel="noopener" — security risk
            document.querySelectorAll('a[target="_blank"]').forEach(function(el) {
                var rel = (el.getAttribute('rel') || '').toLowerCase();
                if (rel.indexOf('noopener') < 0) {
                    issues.push({ sev:'warning', cat:'security',
                        msg:'External link opens in new tab without rel="noopener noreferrer"',
                        el: el.outerHTML.slice(0,120) });
                }
            });

            // ── Interactive element discovery ─────────────────────────────────────
            var interactive = [];

            // Links (all <a href> on the page, including cross-origin for completeness)
            document.querySelectorAll('a[href]').forEach(function(el) {
                var label = (el.textContent || '').trim()
                    || el.getAttribute('aria-label')
                    || el.getAttribute('title')
                    || null;
                interactive.push({ kind:'link', label: label || null, href: el.href || null });
            });

            // Buttons — <button>, role="button", input[submit/button/reset]
            document.querySelectorAll('button, [role="button"], input[type="submit"], input[type="button"], input[type="reset"]').forEach(function(el) {
                var label = (el.textContent || '').trim()
                    || el.getAttribute('aria-label')
                    || el.getAttribute('value')
                    || el.getAttribute('title')
                    || null;
                interactive.push({ kind:'button', label: label || null });
            });

            // Text-like inputs
            document.querySelectorAll('input:not([type="hidden"]):not([type="submit"]):not([type="button"]):not([type="reset"])').forEach(function(el) {
                var label = el.getAttribute('aria-label')
                    || el.getAttribute('placeholder')
                    || el.getAttribute('name')
                    || null;
                interactive.push({ kind:'input', label: label || null, input_type: el.type || 'text' });
            });

            // Select dropdowns
            document.querySelectorAll('select').forEach(function(el) {
                var label = el.getAttribute('aria-label')
                    || el.getAttribute('name')
                    || null;
                interactive.push({ kind:'select', label: label || null });
            });

            // Textareas
            document.querySelectorAll('textarea').forEach(function(el) {
                var label = el.getAttribute('aria-label')
                    || el.getAttribute('placeholder')
                    || el.getAttribute('name')
                    || null;
                interactive.push({ kind:'textarea', label: label || null });
            });

            // ── Link discovery (for BFS) ──────────────────────────────────────────
            var links = [];
            if ("#;

/// The collection script between that flag and the expression that selects the anchors.
pub const COLLECT_ANCHORS: &'static str = r#") {
                var seen = new Set();
                "#;

/// The collection script between that expression and the host of the site.
pub const COLLECT_HOST: &'static str = r#".forEach(function(el) {
                    try {
                        var u = new URL(el.href, location.href);
                        if (u.hostname !== "#;

/// The collection script after the host of the site.
pub const COLLECT_TAIL: &'static str = r#") return;
                        u.hash = ''; u.search = '';
                        if (u.pathname !== '/' && u.pathname.endsWith('/')) {
                            u.pathname = u.pathname.slice(0, -1);
                        }
                        var k = u.toString();
                        if (!seen.has(k)) { seen.add(k); links.push(k); }
                    } catch(_) {}
                });
            }

            // ── Navigation Timing (synchronous) ──────────────────────────────────
            var nav = performance.getEntriesByType('navigation')[0] || {};
            var paint = {};
            performance.getEntriesByType('paint').forEach(function(e) { paint[e.name] = e.startTime; });

            var dns  = (nav.domainLookupEnd  != null && nav.domainLookupStart != null)
                       ? nav.domainLookupEnd  - nav.domainLookupStart : null;
            var tcp  = (nav.connectEnd       != null && nav.connectStart      != null)
                       ? nav.connectEnd       - nav.connectStart      : null;
            var tls  = (nav.secureConnectionStart > 0 && nav.connectEnd != null)
                       ? nav.connectEnd - nav.secureConnectionStart    : null;
            var ttfb = (nav.responseStart    != null && nav.requestStart      != null)
                       ? nav.responseStart   - nav.requestStart       : null;
            var dl   = (nav.responseEnd      != null && nav.responseStart     != null)
                       ? nav.responseEnd     - nav.responseStart      : null;

            // Tightened heuristic: a resource truly failed if:
            //   - transferSize is 0 AND decodedBodySize is 0 (not cached, not prefetch)
            //   - duration is suspiciously short (< 5ms — genuine failures resolve instantly)
            //   - not a data URI or blob URI (those are always "0-byte" by design)
            //   - responseStatus (Chrome 109+) is 4xx/5xx when available
            var resources = performance.getEntriesByType('resource');
            var totalBytes = 0, failedCount = 0, failedUrls = [], slowestMs = 0, slowestUrl = null;
            for (var i = 0; i < resources.length; i++) {
                var r = resources[i];
                if (r.transferSize) totalBytes += r.transferSize;
                var name = r.name || '';
                var isDataOrBlob = name.startsWith('data:') || name.startsWith('blob:');
                var likelyFailed = !isDataOrBlob
                    && r.transferSize === 0
                    && r.decodedBodySize === 0
                    && r.duration < 5;
                // If responseStatus is available (Chrome 109+) use it as ground truth
                if (r.responseStatus && r.responseStatus >= 400) {
                    likelyFailed = true;
                }
                if (likelyFailed) {
                    failedCount++;
                    failedUrls.push(name);
                }
                if (r.duration > slowestMs) { slowestMs = r.duration; slowestUrl = name; }
            }

            var collected = {
                issues: issues,
                links:  links,
                interactive: interactive,
                perf: {
                    fcp:  paint['first-contentful-paint'] || null,
                    dcl:  nav.domContentLoadedEventEnd > 0 ? nav.domContentLoadedEventEnd : null,
                    load: nav.loadEventEnd   > 0 ? nav.loadEventEnd   : null,
                    tti:  nav.domInteractive > 0 ? nav.domInteractive : null
                },
                net: {
                    dns:  dns,  tcp: tcp, tls: tls, ttfb: ttfb, download: dl,
                    resource_count:        resources.length,
                    failed_resource_count: failedCount,
                    failed_resource_urls:  failedUrls,
                    total_transfer_kb:     totalBytes / 1024,
                    slowest_ms:  slowestMs  > 0    ? slowestMs  : null,
                    slowest_url: slowestUrl !== null ? slowestUrl : null
                },
                lcp: null,
                cls: null
            };

            // ── LCP + CLS via buffered PerformanceObservers ───────────────────────
            var lcpDone = false, clsDone = false;
            var clsTotal = 0;
            var checkDone = function() { if (lcpDone && clsDone) done(collected); };

            try {
                new PerformanceObserver(function(list) {
                    var e = list.getEntries();
                    if (e.length) collected.lcp = e[e.length - 1].startTime;
                    lcpDone = true; checkDone();
                }).observe({ type: 'largest-contentful-paint', buffered: true });
            } catch(_) { lcpDone = true; checkDone(); }

            try {
                new PerformanceObserver(function(list) {
                    list.getEntries().forEach(function(e) {
                        if (!e.hadRecentInput) clsTotal += e.value;
                    });
                    collected.cls = clsTotal > 0 ? clsTotal : null;
                    clsDone = true; checkDone();
                }).observe({ type: 'layout-shift', buffered: true });
            } catch(_) { clsDone = true; checkDone(); }

            // Safety net: deliver whatever we have after 500ms
            setTimeout(function() { lcpDone = true; clsDone = true; checkDone(); }, 500);

        } catch(err) {
            done({ issues:[], links:[], perf:{}, net:{}, lcp:null, cls:null, _error: err.toString() });
        }
    }

    // ── SPA content detection ─────────────────────────────────────────────────
    // With eager page load strategy, goto returns at DOMContentLoaded before
    // SPA frameworks (React, Vue, etc.) have had a chance to render. We use a
    // MutationObserver to detect when real content appears, then collect.
    function hasContent() {
        var b = document.body;
        if (!b) return false;
        // Consider the page "ready" once it has either a meaningful amount of
        // HTML or at least one navigable link.
        return b.innerHTML.length >= 200 || b.querySelectorAll('a[href]').length > 0;
    }

    if (hasContent() || document.readyState === 'complete') {
        runCollect();
    } else {
        var mo = new MutationObserver(function() {
            if (hasContent()) {
                mo.disconnect();
                runCollect();
            }
        });
        mo.observe(document.body || document.documentElement, { childList: true, subtree: true });
        // Fallback: collect after 6s even if content threshold not met
        setTimeout(function() { mo.disconnect(); runCollect(); }, 6000);
    }
})(arguments[arguments.length - 1]);
"#;

/// Records script errors on a page from now on; they are read by the collection script.
pub const ERROR_LISTENER_JS: &'static str = r#"
        if (!window.__webprobe_init) {
            window.__webprobe_init = true;
            window.__webprobe_errors = window.__webprobe_errors || [];
            window.addEventListener('error', function(e) {
                var msg = e.message || String(e);
                if (e.filename) msg += ' @ ' + e.filename + ':' + e.lineno;
                window.__webprobe_errors.push(msg);
            }, { capture: true, passive: true });
            window.addEventListener('unhandledrejection', function(e) {
                try {
                    var r = e.reason;
                    var msg = (r && r.message) ? r.message : String(r);
                    window.__webprobe_errors.push('UnhandledRejection: ' + msg);
                } catch(_) {}
            }, { capture: true, passive: true });
            /* Intercept console.error too */
            var _origErr = console.error.bind(console);
            console.error = function() {
                try {
                    var parts = Array.prototype.slice.call(arguments).map(function(a) {
                        return (typeof a === 'object') ? JSON.stringify(a) : String(a);
                    });
                    window.__webprobe_errors.push('console.error: ' + parts.join(' '));
                } catch(_) {}
                _origErr.apply(console, arguments);
            };
        }
        "#;

/// Lists the targets of all anchors of a page as a JSON list.
pub const DISCOVER_LINKS_JS: &'static str = r#"
(() => {
    const seen = new Set();
    const links = [];
    document.querySelectorAll('a[href]').forEach(el => {
        const href = el.href;
        if (!href || href.startsWith('javascript:') || href.startsWith('mailto:') || href.startsWith('tel:')) return;
        if (seen.has(href)) return;
        seen.add(href);
        links.push(href);
    });
    return JSON.stringify(links);
})()
"#;

/// Records console messages, script errors and rejections of a page before any of its own
/// scripts run, and sums up paint, layout shift and blocking times.
pub const COLLECTOR_JS: &'static str = r#"
window.__wp_errors = [];
window.__wp_lcp = null;
window.__wp_cls = 0;
window.__wp_tbt = 0;

(function () {
    const push = (type, msg) => window.__wp_errors.push({ type, msg: String(msg).slice(0, 500) });

    const origError = console.error.bind(console);
    console.error = function (...args) {
        push('error', args.map(a => (typeof a === 'object' ? JSON.stringify(a) : String(a))).join(' '));
        origError(...args);
    };
    const origWarn = console.warn.bind(console);
    console.warn = function (...args) {
        push('warning', args.map(a => (typeof a === 'object' ? JSON.stringify(a) : String(a))).join(' '));
        origWarn(...args);
    };

    window.addEventListener('error', function (e) {
        push('uncaught', e.message + (e.filename ? ' at ' + e.filename + ':' + e.lineno : ''));
    });
    window.addEventListener('unhandledrejection', function (e) {
        push('rejection', e.reason && e.reason.message ? e.reason.message : String(e.reason));
    });

    // Largest Contentful Paint
    try {
        new PerformanceObserver(function(list) {
            const entries = list.getEntries();
            if (entries.length) window.__wp_lcp = entries[entries.length - 1].startTime;
        }).observe({ type: 'largest-contentful-paint', buffered: true });
    } catch(_) {}

    // Cumulative Layout Shift
    try {
        new PerformanceObserver(function(list) {
            for (const entry of list.getEntries()) {
                if (!entry.hadRecentInput) window.__wp_cls += entry.value;
            }
        }).observe({ type: 'layout-shift', buffered: true });
    } catch(_) {}

    // Total Blocking Time (sum of blocking portions of long tasks >50ms)
    try {
        new PerformanceObserver(function(list) {
            for (const entry of list.getEntries()) {
                if (entry.duration > 50) window.__wp_tbt += entry.duration - 50;
            }
        }).observe({ type: 'longtask', buffered: true });
    } catch(_) {}
})();
"#;

/// The expression that selects the anchors to follow: those inside the first element that
/// matches `link_selector`, or all of them.
pub open spec fn anchor_expression(link_selector: Option<Seq<char>>) -> Seq<char> {
    match link_selector {
        Some(sel) => "(document.querySelector("@ + json_quoted(sel)
            + ") || document).querySelectorAll('a[href]')"@,
        None => "document.querySelectorAll('a[href]')"@,
    }
}

/// The script that audits a page, collects its measurements and, if `discover` holds, the
/// links to pages of `base_host`.
pub open spec fn collect_script(
    base_host: Seq<char>,
    discover: bool,
    link_selector: Option<Seq<char>>,
) -> Seq<char> {
    COLLECT_HEAD@ + (if discover {
        "true"@
    } else {
        "false"@
    }) + COLLECT_ANCHORS@ + anchor_expression(link_selector) + COLLECT_HOST@ + json_quoted(
        base_host,
    ) + COLLECT_TAIL@
}

/// `s` as a JSON string.
fn quote(s: &str) -> (r: String)
    ensures
        r@ == json_quoted(s@),
{
    match json_quote(s) {
        Some(t) => t,
        None => String::new(),
    }
}

/// The script that audits a page.
///
/// Where the page has meaningful content it runs at once; on the shell of a single page
/// application it waits for content to appear. It reads buffered paint and layout shift
/// entries, and it always calls back, after eight seconds at the latest.
pub fn build_collect_js(base_host: &str, discover: bool, link_selector: Option<&str>) -> (r: String)
    ensures
        r@ == collect_script(
            base_host@,
            discover,
            match link_selector {
                Some(s) => Some(s@),
                None => None,
            },
        ),
{
    let anchors = match link_selector {
        Some(sel) => {
            let mut q = "(document.querySelector(".to_string();
            let quoted = quote(sel);
            q.append(quoted.as_str());
            q.append(") || document).querySelectorAll('a[href]')");
            q
        },
        None => "document.querySelectorAll('a[href]')".to_string(),
    };
    let mut js = COLLECT_HEAD.to_string();
    js.append(if discover {
        "true"
    } else {
        "false"
    });
    js.append(COLLECT_ANCHORS);
    js.append(anchors.as_str());
    js.append(COLLECT_HOST);
    let host = quote(base_host);
    js.append(host.as_str());
    js.append(COLLECT_TAIL);
    js
}

/// The script that audits a page looks for links exactly if it is told to, keeps to the host
/// that it is given, and follows the links of the selected part alone where one is selected.
pub proof fn script_keeps_to_what_it_is_told(
    base_host: Seq<char>,
    discover: bool,
    selector: Seq<char>,
)
    ensures
        collect_script(base_host, true, None) == COLLECT_HEAD@ + "true"@ + COLLECT_ANCHORS@
            + "document.querySelectorAll('a[href]')"@ + COLLECT_HOST@ + json_quoted(base_host)
            + COLLECT_TAIL@,
        collect_script(base_host, false, None) == COLLECT_HEAD@ + "false"@ + COLLECT_ANCHORS@
            + "document.querySelectorAll('a[href]')"@ + COLLECT_HOST@ + json_quoted(base_host)
            + COLLECT_TAIL@,
        anchor_expression(Some(selector)) == "(document.querySelector("@ + json_quoted(selector)
            + ") || document).querySelectorAll('a[href]')"@,
        has_part(collect_script(base_host, discover, Some(selector)), json_quoted(base_host)),
        has_part(collect_script(base_host, discover, Some(selector)), json_quoted(selector)),
{
    let script = collect_script(base_host, discover, Some(selector));
    let flag = if discover {
        "true"@
    } else {
        "false"@
    };
    let front = COLLECT_HEAD@ + flag + COLLECT_ANCHORS@;
    let anchors = anchor_expression(Some(selector));
    let (host, quoted) = (json_quoted(base_host), json_quoted(selector));
    part_stands_between(script, host);
    assert(script == (((front + anchors + COLLECT_HOST@) + host) + COLLECT_TAIL@));
    part_stands_between(script, quoted);
    let open = front + "(document.querySelector("@;
    let close = ") || document).querySelectorAll('a[href]')"@ + COLLECT_HOST@ + host + COLLECT_TAIL@;
    assert(script =~= ((open + quoted) + close));
}

} // verus!
