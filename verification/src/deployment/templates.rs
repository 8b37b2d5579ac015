//! Starter templates for new deployments.

use vstd::prelude::*;
use crate::text::{
    chars_of, chars_eq, is_whitespace, is_ws, push, push_range, string_of, string_of_range,
};
use crate::unicode::{char_to_uppercase, char_uppercase, lowercase, to_lowercase};

verus! {

/// The frameworks that have a starter template.
pub open spec fn frameworks() -> Seq<Seq<char>> {
    seq!["html"@, "php"@, "laravel"@, "wordpress"@, "react"@, "node"@]
}

/// Law: exactly six frameworks have a starter template: `html`, `php`,
/// `laravel`, `wordpress`, `react` and `node`.
pub proof fn law_known_frameworks(framework: Seq<char>)
    ensures
        frameworks().contains(framework) <==> (framework == "html"@ || framework == "php"@
            || framework == "laravel"@ || framework == "wordpress"@ || framework == "react"@
            || framework == "node"@),
{
    let f = frameworks();
    if f.contains(framework) {
        let i = choose|i: int| 0 <= i < f.len() && f[i] == framework;
    }
    if framework == "html"@ { assert(f[0] == framework); }
    if framework == "php"@ { assert(f[1] == framework); }
    if framework == "laravel"@ { assert(f[2] == framework); }
    if framework == "wordpress"@ { assert(f[3] == framework); }
    if framework == "react"@ { assert(f[4] == framework); }
    if framework == "node"@ { assert(f[5] == framework); }
}

/// Whether `framework` has a starter template.
pub fn is_known_framework(framework: &str) -> (b: bool)
    ensures
        b == frameworks().contains(framework@),
{
    let f = chars_of(framework);
    let b = chars_eq(&f, &chars_of("html")) || chars_eq(&f, &chars_of("php")) || chars_eq(
        &f,
        &chars_of("laravel"),
    ) || chars_eq(&f, &chars_of("wordpress")) || chars_eq(&f, &chars_of("react")) || chars_eq(
        &f,
        &chars_of("node"),
    );
    proof {
        if frameworks().contains(framework@) {
            let k = choose|k: int| 0 <= k < 6 && frameworks()[k] == framework@;
            assert(frameworks()[k] == framework@);
        }
        if b {
            if f@ == "html"@ {
                assert(frameworks()[0] == framework@);
            } else if f@ == "php"@ {
                assert(frameworks()[1] == framework@);
            } else if f@ == "laravel"@ {
                assert(frameworks()[2] == framework@);
            } else if f@ == "wordpress"@ {
                assert(frameworks()[3] == framework@);
            } else if f@ == "react"@ {
                assert(frameworks()[4] == framework@);
            } else {
                assert(frameworks()[5] == framework@);
            }
        }
    }
    b
}

/// The framework a new deployment gets: the requested one when it has a
/// template, `html` otherwise.
pub fn choose_framework(framework: &str) -> (r: String)
    ensures
        r@ == if frameworks().contains(framework@) {
            framework@
        } else {
            "html"@
        },
{
    if is_known_framework(framework) {
        String::from_str(framework)
    } else {
        String::from_str("html")
    }
}

/// The label shown for a framework.
pub open spec fn framework_label_text(framework: Seq<char>) -> Seq<char> {
    if framework == "html"@ {
        "HTML website"@
    } else if framework == "php"@ {
        "PHP website"@
    } else if framework == "laravel"@ {
        "Laravel"@
    } else if framework == "wordpress"@ {
        "WordPress"@
    } else if framework == "react"@ {
        "React (Vite)"@
    } else if framework == "node"@ {
        "Node.js"@
    } else {
        "Custom"@
    }
}

/// The label shown for a framework.
pub fn framework_label(framework: &str) -> (r: &'static str)
    ensures
        r@ == framework_label_text(framework@),
{
    let f = chars_of(framework);
    if chars_eq(&f, &chars_of("html")) {
        "HTML website"
    } else if chars_eq(&f, &chars_of("php")) {
        "PHP website"
    } else if chars_eq(&f, &chars_of("laravel")) {
        "Laravel"
    } else if chars_eq(&f, &chars_of("wordpress")) {
        "WordPress"
    } else if chars_eq(&f, &chars_of("react")) {
        "React (Vite)"
    } else if chars_eq(&f, &chars_of("node")) {
        "Node.js"
    } else {
        "Custom"
    }
}

// ---------------------------------------------------------------------------
// Title case
// ---------------------------------------------------------------------------

/// `-` and `_` replaced by spaces.
pub open spec fn dashes_to_spaces(s: Seq<char>) -> Seq<char> {
    s.map_values(|c: char| if c == '-' || c == '_' { ' ' } else { c })
}

/// First index at or after `i` that is not whitespace (or the end).
pub open spec fn skip_ws_from(s: Seq<char>, i: int) -> int
    decreases s.len() - i,
{
    if i < 0 || i >= s.len() || !is_ws(s[i]) {
        i
    } else {
        skip_ws_from(s, i + 1)
    }
}

/// First index at or after `i` that is whitespace (or the end).
pub open spec fn word_end_from(s: Seq<char>, i: int) -> int
    decreases s.len() - i,
{
    if i < 0 || i >= s.len() || is_ws(s[i]) {
        i
    } else {
        word_end_from(s, i + 1)
    }
}

pub proof fn lemma_skip_ws_from(s: Seq<char>, i: int)
    requires
        0 <= i <= s.len(),
    ensures
        i <= skip_ws_from(s, i) <= s.len(),
        forall|j: int| i <= j < skip_ws_from(s, i) ==> is_ws(s[j]),
        skip_ws_from(s, i) < s.len() ==> !is_ws(s[skip_ws_from(s, i)]),
    decreases s.len() - i,
{
    if i < s.len() && is_ws(s[i]) {
        lemma_skip_ws_from(s, i + 1);
    }
}

pub proof fn lemma_word_end_from(s: Seq<char>, i: int)
    requires
        0 <= i <= s.len(),
    ensures
        i <= word_end_from(s, i) <= s.len(),
        forall|j: int| i <= j < word_end_from(s, i) ==> !is_ws(s[j]),
        word_end_from(s, i) < s.len() ==> is_ws(s[word_end_from(s, i)]),
    decreases s.len() - i,
{
    if i < s.len() && !is_ws(s[i]) {
        lemma_word_end_from(s, i + 1);
    }
}

/// The spans of the whitespace-separated words of `s` from `i` on
/// (`str::split_whitespace`).
pub open spec fn word_spans_from(s: Seq<char>, i: int) -> Seq<(int, int)>
    decreases s.len() - i,
{
    if i < 0 || i > s.len() {
        Seq::empty()
    } else {
        let j = skip_ws_from(s, i);
        proof {
            lemma_skip_ws_from(s, i);
        }
        if j >= s.len() {
            Seq::empty()
        } else {
            let k = word_end_from(s, j + 1);
            proof {
                lemma_word_end_from(s, j + 1);
            }
            seq![(j, k)] + word_spans_from(s, k)
        }
    }
}

/// A word with its first character upper-cased and the rest lower-cased.
pub open spec fn capitalized(w: Seq<char>) -> Seq<char> {
    if w.len() == 0 {
        Seq::empty()
    } else {
        char_uppercase(w[0]) + lowercase(w.subrange(1, w.len() as int))
    }
}

/// The capitalized words at `spans` of `s`, joined by single spaces.
pub open spec fn join_capitalized(s: Seq<char>, spans: Seq<(int, int)>) -> Seq<char>
    decreases spans.len(),
{
    if spans.len() == 0 {
        Seq::empty()
    } else if spans.len() == 1 {
        capitalized(s.subrange(spans[0].0, spans[0].1))
    } else {
        join_capitalized(s, spans.drop_last()) + seq![' '] + capitalized(
            s.subrange(spans.last().0, spans.last().1),
        )
    }
}

/// A deployment name as a title: `-` and `_` become spaces, and each word is
/// capitalized; words are joined by single spaces.
pub open spec fn title_case_text(name: Seq<char>) -> Seq<char> {
    let s = dashes_to_spaces(name);
    join_capitalized(s, word_spans_from(s, 0))
}

/// A deployment name as a title (see `title_case_text`).
pub fn title_case(name: &str) -> (r: String)
    ensures
        r@ == title_case_text(name@),
{
    let n = chars_of(name);
    let mut s: Vec<char> = Vec::new();
    let mut i: usize = 0;
    while i < n.len()
        invariant
            i <= n@.len(),
            n@ == name@,
            s@ == dashes_to_spaces(n@).take(i as int),
        decreases n@.len() - i,
    {
        let c = n[i];
        s.push(if c == '-' || c == '_' { ' ' } else { c });
        assert(s@ =~= dashes_to_spaces(n@).take(i + 1));
        i = i + 1;
    }
    assert(s@ =~= dashes_to_spaces(n@));
    let ghost sv = s@;
    let mut out = String::new();
    let mut pos: usize = 0;
    let ghost mut done: Seq<(int, int)> = Seq::empty();
    let mut any = false;
    while pos < s.len()
        invariant
            pos <= s@.len(),
            any == (done.len() > 0),
            sv == s@,
            sv == dashes_to_spaces(name@),
            word_spans_from(sv, 0) == done + word_spans_from(sv, pos as int),
            out@ == join_capitalized(sv, done),
        decreases s@.len() - pos,
    {
        proof {
            lemma_skip_ws_from(sv, pos as int);
        }
        let mut j = pos;
        while j < s.len() && is_whitespace(s[j])
            invariant
                pos <= j <= s@.len(),
                sv == s@,
                skip_ws_from(sv, pos as int) == skip_ws_from(sv, j as int),
            decreases s@.len() - j,
        {
            j = j + 1;
        }
        if j >= s.len() {
            proof {
                assert(word_spans_from(sv, pos as int) =~= Seq::<(int, int)>::empty());
                assert(done + word_spans_from(sv, pos as int) =~= done);
            }
            pos = s.len();
        } else {
            proof {
                lemma_word_end_from(sv, j + 1);
            }
            let mut k = j + 1;
            while k < s.len() && !is_whitespace(s[k])
                invariant
                    j < k <= s@.len(),
                    sv == s@,
                    word_end_from(sv, j + 1) == word_end_from(sv, k as int),
                decreases s@.len() - k,
            {
                k = k + 1;
            }
            let first = char_to_uppercase(s[j]);
            let rest = string_of_range(&s, j + 1, k);
            let lowered = to_lowercase(rest.as_str());
            let ghost old_done = done;
            proof {
                let w = sv.subrange(j as int, k as int);
                assert(w[0] == sv[j as int]);
                assert(w.subrange(1, w.len() as int) =~= sv.subrange(j + 1, k as int));
                done = done.push((j as int, k as int));
                assert(done.drop_last() =~= old_done);
                assert(word_spans_from(sv, pos as int) == seq![(j as int, k as int)]
                    + word_spans_from(sv, k as int));
                assert(old_done + (seq![(j as int, k as int)] + word_spans_from(sv, k as int))
                    =~= done + word_spans_from(sv, k as int));
            }
            if any {
                push(&mut out, ' ');
            }
            any = true;
            out.append(first.as_str());
            out.append(lowered.as_str());
            proof {
                if old_done.len() == 0 {
                    assert(out@ =~= join_capitalized(sv, done));
                } else {
                    assert(out@ =~= join_capitalized(sv, done));
                }
            }
            pos = k;
        }
    }
    proof {
        assert(word_spans_from(sv, pos as int) =~= Seq::<(int, int)>::empty());
        assert(done + word_spans_from(sv, pos as int) =~= done);
    }
    out
}

// ---------------------------------------------------------------------------
// Template files
// ---------------------------------------------------------------------------

pub open spec fn html_index_text(title: Seq<char>) -> Seq<char> {
    "<!doctype html>\n<html lang=\"en\">\n<head>\n  <meta charset=\"utf-8\">\n  <meta name=\"viewport\" content=\"width=device-width, initial-scale=1\">\n  <title>"@ + title + "</title>\n  <link rel=\"stylesheet\" href=\"assets/styles.css\">\n</head>\n<body>\n  <main class=\"hero\">\n    <p class=\"eyebrow\">Local XAMPP deployment</p>\n    <h1>"@ + title + "</h1>\n    <p>Edit <code>index.html</code>, <code>assets/styles.css</code>, and <code>assets/app.js</code> from Xamppify.</p>\n    <button id=\"hello-button\">Test JavaScript</button>\n  </main>\n  <script src=\"assets/app.js\"></script>\n</body>\n</html>\n"@
}

fn html_index(title: &str) -> (r: String)
    ensures
        r@ == html_index_text(title@),
{
    let mut s = String::from_str("<!doctype html>\n<html lang=\"en\">\n<head>\n  <meta charset=\"utf-8\">\n  <meta name=\"viewport\" content=\"width=device-width, initial-scale=1\">\n  <title>");
    s.append(title);
    s.append("</title>\n  <link rel=\"stylesheet\" href=\"assets/styles.css\">\n</head>\n<body>\n  <main class=\"hero\">\n    <p class=\"eyebrow\">Local XAMPP deployment</p>\n    <h1>");
    s.append(title);
    s.append("</h1>\n    <p>Edit <code>index.html</code>, <code>assets/styles.css</code>, and <code>assets/app.js</code> from Xamppify.</p>\n    <button id=\"hello-button\">Test JavaScript</button>\n  </main>\n  <script src=\"assets/app.js\"></script>\n</body>\n</html>\n");
    s
}

pub open spec fn php_index_text(title: Seq<char>) -> Seq<char> {
    "<!doctype html>\n<html lang=\"en\">\n<head>\n  <meta charset=\"utf-8\">\n  <meta name=\"viewport\" content=\"width=device-width, initial-scale=1\">\n  <title>"@ + title + "</title>\n  <link rel=\"stylesheet\" href=\"assets/styles.css\">\n</head>\n<body>\n  <main class=\"hero\">\n    <p class=\"eyebrow\">Local XAMPP deployment</p>\n    <h1><?php echo '"@ + title + "'; ?></h1>\n    <p>This page is powered by PHP. Edit <code>index.php</code> to get started.</p>\n    <button id=\"hello-button\">Test JavaScript</button>\n  </main>\n  <script src=\"assets/app.js\"></script>\n</body>\n</html>\n"@
}

fn php_index(title: &str) -> (r: String)
    ensures
        r@ == php_index_text(title@),
{
    let mut s = String::from_str("<!doctype html>\n<html lang=\"en\">\n<head>\n  <meta charset=\"utf-8\">\n  <meta name=\"viewport\" content=\"width=device-width, initial-scale=1\">\n  <title>");
    s.append(title);
    s.append("</title>\n  <link rel=\"stylesheet\" href=\"assets/styles.css\">\n</head>\n<body>\n  <main class=\"hero\">\n    <p class=\"eyebrow\">Local XAMPP deployment</p>\n    <h1><?php echo '");
    s.append(title);
    s.append("'; ?></h1>\n    <p>This page is powered by PHP. Edit <code>index.php</code> to get started.</p>\n    <button id=\"hello-button\">Test JavaScript</button>\n  </main>\n  <script src=\"assets/app.js\"></script>\n</body>\n</html>\n");
    s
}

pub open spec fn laravel_index_text(name: Seq<char>, title_case_name: Seq<char>) -> Seq<char> {
    "<?php\n// Laravel-style starter for "@ + name + ".\n// In a full Laravel install, index.php lives in public/ and\n// delegates to the framework bootstrap. Use a Composer workflow here.\nrequire __DIR__ . '/../vendor/autoload.php';\n\necho '<h1>"@ + title_case_name + "</h1>';\n"@
}

fn laravel_index(name: &str) -> (r: String)
    ensures
        r@ == laravel_index_text(name@, title_case_text(name@)),
{
    let title_case_name = title_case(name);
    let mut s = String::from_str("<?php\n// Laravel-style starter for ");
    s.append(name);
    s.append(".\n// In a full Laravel install, index.php lives in public/ and\n// delegates to the framework bootstrap. Use a Composer workflow here.\nrequire __DIR__ . '/../vendor/autoload.php';\n\necho '<h1>");
    s.append(title_case_name.as_str());
    s.append("</h1>';\n");
    s
}

pub open spec fn laravel_env_text(name: Seq<char>, title_case_name: Seq<char>) -> Seq<char> {
    "APP_NAME=\""@ + title_case_name + "\"\nAPP_ENV=local\nAPP_KEY=\nAPP_DEBUG=true\nAPP_URL=http://localhost/"@ + name + "/\n\nDB_CONNECTION=mysql\nDB_HOST=127.0.0.1\nDB_PORT=3306\nDB_DATABASE="@ + name + "_db\nDB_USERNAME=root\nDB_PASSWORD=\n"@
}

fn laravel_env(name: &str) -> (r: String)
    ensures
        r@ == laravel_env_text(name@, title_case_text(name@)),
{
    let title_case_name = title_case(name);
    let mut s = String::from_str("APP_NAME=\"");
    s.append(title_case_name.as_str());
    s.append("\"\nAPP_ENV=local\nAPP_KEY=\nAPP_DEBUG=true\nAPP_URL=http://localhost/");
    s.append(name);
    s.append("/\n\nDB_CONNECTION=mysql\nDB_HOST=127.0.0.1\nDB_PORT=3306\nDB_DATABASE=");
    s.append(name);
    s.append("_db\nDB_USERNAME=root\nDB_PASSWORD=\n");
    s
}

pub open spec fn wordpress_config_text(name: Seq<char>) -> Seq<char> {
    "<?php\n// WordPress-style starter for "@ + name + ".\n// Copy to wp-config.php once you upload a full WordPress install.\ndefine( 'DB_NAME', '"@ + name + "_db' );\ndefine( 'DB_USER', 'root' );\ndefine( 'DB_PASSWORD', '' );\ndefine( 'DB_HOST', '127.0.0.1' );\ndefine( 'DB_CHARSET', 'utf8mb4' );\ndefine( 'DB_COLLATE', '' );\n$table_prefix = 'wp_';\ndefine( 'WP_DEBUG', true );\nif ( ! defined( 'ABSPATH' ) ) { define( 'ABSPATH', __DIR__ . '/' ); }\nrequire_once ABSPATH . 'wp-settings.php';\n"@
}

fn wordpress_config(name: &str) -> (r: String)
    ensures
        r@ == wordpress_config_text(name@),
{
    let mut s = String::from_str("<?php\n// WordPress-style starter for ");
    s.append(name);
    s.append(".\n// Copy to wp-config.php once you upload a full WordPress install.\ndefine( 'DB_NAME', '");
    s.append(name);
    s.append("_db' );\ndefine( 'DB_USER', 'root' );\ndefine( 'DB_PASSWORD', '' );\ndefine( 'DB_HOST', '127.0.0.1' );\ndefine( 'DB_CHARSET', 'utf8mb4' );\ndefine( 'DB_COLLATE', '' );\n$table_prefix = 'wp_';\ndefine( 'WP_DEBUG', true );\nif ( ! defined( 'ABSPATH' ) ) { define( 'ABSPATH', __DIR__ . '/' ); }\nrequire_once ABSPATH . 'wp-settings.php';\n");
    s
}

pub open spec fn react_html_text(title: Seq<char>) -> Seq<char> {
    "<!doctype html>\n<html lang=\"en\">\n  <head>\n    <meta charset=\"UTF-8\" />\n    <meta name=\"viewport\" content=\"width=device-width, initial-scale=1.0\" />\n    <title>"@ + title + "</title>\n  </head>\n  <body>\n    <div id=\"root\"></div>\n    <script type=\"module\" src=\"/src/main.jsx\"></script>\n  </body>\n</html>\n"@
}

fn react_html(title: &str) -> (r: String)
    ensures
        r@ == react_html_text(title@),
{
    let mut s = String::from_str("<!doctype html>\n<html lang=\"en\">\n  <head>\n    <meta charset=\"UTF-8\" />\n    <meta name=\"viewport\" content=\"width=device-width, initial-scale=1.0\" />\n    <title>");
    s.append(title);
    s.append("</title>\n  </head>\n  <body>\n    <div id=\"root\"></div>\n    <script type=\"module\" src=\"/src/main.jsx\"></script>\n  </body>\n</html>\n");
    s
}

pub open spec fn react_main_text(title: Seq<char>) -> Seq<char> {
    "import React from 'react';\nimport ReactDOM from 'react-dom/client';\nimport App from './App';\nimport './App.css';\n\nReactDOM.createRoot(document.getElementById('root')).render(\n  <React.StrictMode>\n    <App title=\""@ + title + "\" />\n  </React.StrictMode>\n);\n"@
}

fn react_main(title: &str) -> (r: String)
    ensures
        r@ == react_main_text(title@),
{
    let mut s = String::from_str("import React from 'react';\nimport ReactDOM from 'react-dom/client';\nimport App from './App';\nimport './App.css';\n\nReactDOM.createRoot(document.getElementById('root')).render(\n  <React.StrictMode>\n    <App title=\"");
    s.append(title);
    s.append("\" />\n  </React.StrictMode>\n);\n");
    s
}

pub open spec fn react_package_text(name: Seq<char>) -> Seq<char> {
    "{\n  \"name\": \""@ + name + "\",\n  \"private\": true,\n  \"version\": \"0.1.0\",\n  \"type\": \"module\",\n  \"scripts\": {\n    \"dev\": \"vite\",\n    \"build\": \"vite build\",\n    \"preview\": \"vite preview\"\n  },\n  \"dependencies\": {\n    \"react\": \"^18.3.1\",\n    \"react-dom\": \"^18.3.1\"\n  },\n  \"devDependencies\": {\n    \"@vitejs/plugin-react\": \"^4.3.4\",\n    \"vite\": \"^5.4.11\"\n  }\n}\n"@
}

fn react_package(name: &str) -> (r: String)
    ensures
        r@ == react_package_text(name@),
{
    let mut s = String::from_str("{\n  \"name\": \"");
    s.append(name);
    s.append("\",\n  \"private\": true,\n  \"version\": \"0.1.0\",\n  \"type\": \"module\",\n  \"scripts\": {\n    \"dev\": \"vite\",\n    \"build\": \"vite build\",\n    \"preview\": \"vite preview\"\n  },\n  \"dependencies\": {\n    \"react\": \"^18.3.1\",\n    \"react-dom\": \"^18.3.1\"\n  },\n  \"devDependencies\": {\n    \"@vitejs/plugin-react\": \"^4.3.4\",\n    \"vite\": \"^5.4.11\"\n  }\n}\n");
    s
}

pub open spec fn node_server_text(title: Seq<char>) -> Seq<char> {
    "const http = require('http');\n\nconst PORT = process.env.PORT || 3000;\n\nconst server = http.createServer((req, res) => {\n  res.writeHead(200, { 'Content-Type': 'text/html; charset=utf-8' });\n  res.end(`<h1>"@ + title + "</h1><p>Node.js server is running on port ${PORT}.</p>`);\n});\n\nserver.listen(PORT, () => {\n  console.log(`Server running at http://localhost:${PORT}`);\n});\n"@
}

fn node_server(title: &str) -> (r: String)
    ensures
        r@ == node_server_text(title@),
{
    let mut s = String::from_str("const http = require('http');\n\nconst PORT = process.env.PORT || 3000;\n\nconst server = http.createServer((req, res) => {\n  res.writeHead(200, { 'Content-Type': 'text/html; charset=utf-8' });\n  res.end(`<h1>");
    s.append(title);
    s.append("</h1><p>Node.js server is running on port ${PORT}.</p>`);\n});\n\nserver.listen(PORT, () => {\n  console.log(`Server running at http://localhost:${PORT}`);\n});\n");
    s
}

pub open spec fn node_package_text(name: Seq<char>) -> Seq<char> {
    "{\n  \"name\": \""@ + name + "\",\n  \"version\": \"0.1.0\",\n  \"main\": \"server.js\",\n  \"scripts\": {\n    \"start\": \"node server.js\",\n    \"dev\": \"node server.js\"\n  }\n}\n"@
}

fn node_package(name: &str) -> (r: String)
    ensures
        r@ == node_package_text(name@),
{
    let mut s = String::from_str("{\n  \"name\": \"");
    s.append(name);
    s.append("\",\n  \"version\": \"0.1.0\",\n  \"main\": \"server.js\",\n  \"scripts\": {\n    \"start\": \"node server.js\",\n    \"dev\": \"node server.js\"\n  }\n}\n");
    s
}

pub open spec fn wordpress_index_text() -> Seq<char> {
    "<?php\n// Short and sweet.\ndefine( 'WP_USE_THEMES', true );\nrequire( __DIR__ . '/wp-blog-header.php' );\n"@
}

fn wordpress_index() -> (r: String)
    ensures
        r@ == wordpress_index_text(),
{
    let mut s = String::from_str("<?php\n// Short and sweet.\ndefine( 'WP_USE_THEMES', true );\nrequire( __DIR__ . '/wp-blog-header.php' );\n");
    s
}

pub open spec fn wordpress_htaccess_text() -> Seq<char> {
    "# BEGIN WordPress\nRewriteEngine On\nRewriteBase /\nRewriteRule ^index\\.php$ - [L]\nRewriteCond %{REQUEST_FILENAME} !-f\nRewriteCond %{REQUEST_FILENAME} !-d\nRewriteRule . /index.php [L]\n# END WordPress\n"@
}

fn wordpress_htaccess() -> (r: String)
    ensures
        r@ == wordpress_htaccess_text(),
{
    let mut s = String::from_str("# BEGIN WordPress\nRewriteEngine On\nRewriteBase /\nRewriteRule ^index\\.php$ - [L]\nRewriteCond %{REQUEST_FILENAME} !-f\nRewriteCond %{REQUEST_FILENAME} !-d\nRewriteRule . /index.php [L]\n# END WordPress\n");
    s
}

pub open spec fn react_app_text() -> Seq<char> {
    "function App({ title }) {\n  return (\n    <main className=\"hero\">\n      <p className=\"eyebrow\">Local XAMPP deployment</p>\n      <h1>{title}</h1>\n      <p>Run <code>npm install</code> and <code>npm run dev</code> from Xamppify to start this React app.</p>\n    </main>\n  );\n}\n\nexport default App;\n"@
}

fn react_app() -> (r: String)
    ensures
        r@ == react_app_text(),
{
    let mut s = String::from_str("function App({ title }) {\n  return (\n    <main className=\"hero\">\n      <p className=\"eyebrow\">Local XAMPP deployment</p>\n      <h1>{title}</h1>\n      <p>Run <code>npm install</code> and <code>npm run dev</code> from Xamppify to start this React app.</p>\n    </main>\n  );\n}\n\nexport default App;\n");
    s
}

pub open spec fn react_css_text() -> Seq<char> {
    "* { box-sizing: border-box; }\nbody { margin: 0; min-height: 100vh; display: grid; place-items: center; background: #0f172a; color: #e2e8f0; font-family: system-ui, sans-serif; }\n.hero { max-width: 42rem; padding: 3rem; border: 1px solid #334155; border-radius: 1rem; background: #172033; }\n.eyebrow { color: #38bdf8; font-weight: 700; text-transform: uppercase; letter-spacing: .08em; font-size: .75rem; }\n"@
}

fn react_css() -> (r: String)
    ensures
        r@ == react_css_text(),
{
    let mut s = String::from_str("* { box-sizing: border-box; }\nbody { margin: 0; min-height: 100vh; display: grid; place-items: center; background: #0f172a; color: #e2e8f0; font-family: system-ui, sans-serif; }\n.hero { max-width: 42rem; padding: 3rem; border: 1px solid #334155; border-radius: 1rem; background: #172033; }\n.eyebrow { color: #38bdf8; font-weight: 700; text-transform: uppercase; letter-spacing: .08em; font-size: .75rem; }\n");
    s
}

pub open spec fn react_vite_config_text() -> Seq<char> {
    "import { defineConfig } from 'vite';\nimport react from '@vitejs/plugin-react';\n\nexport default defineConfig({\n  plugins: [react()],\n  server: {\n    port: 5173,\n    strictPort: true,\n  },\n});\n"@
}

fn react_vite_config() -> (r: String)
    ensures
        r@ == react_vite_config_text(),
{
    let mut s = String::from_str("import { defineConfig } from 'vite';\nimport react from '@vitejs/plugin-react';\n\nexport default defineConfig({\n  plugins: [react()],\n  server: {\n    port: 5173,\n    strictPort: true,\n  },\n});\n");
    s
}

pub open spec fn stylesheet_text() -> Seq<char> {
    "* { box-sizing: border-box; }\nbody { margin: 0; min-height: 100vh; display: grid; place-items: center; background: #0f172a; color: #e2e8f0; font-family: system-ui, sans-serif; }\n.hero { max-width: 42rem; padding: 3rem; border: 1px solid #334155; border-radius: 1rem; background: #172033; }\n.eyebrow { color: #38bdf8; font-weight: 700; text-transform: uppercase; letter-spacing: .08em; font-size: .75rem; }\nh1 { margin: .25rem 0 1rem; font-size: clamp(2rem, 8vw, 4rem); }\nbutton { border: 0; border-radius: .5rem; padding: .75rem 1rem; background: #38bdf8; color: #082f49; font-weight: 700; cursor: pointer; }\n"@
}

fn stylesheet() -> (r: String)
    ensures
        r@ == stylesheet_text(),
{
    let mut s = String::from_str("* { box-sizing: border-box; }\nbody { margin: 0; min-height: 100vh; display: grid; place-items: center; background: #0f172a; color: #e2e8f0; font-family: system-ui, sans-serif; }\n.hero { max-width: 42rem; padding: 3rem; border: 1px solid #334155; border-radius: 1rem; background: #172033; }\n.eyebrow { color: #38bdf8; font-weight: 700; text-transform: uppercase; letter-spacing: .08em; font-size: .75rem; }\nh1 { margin: .25rem 0 1rem; font-size: clamp(2rem, 8vw, 4rem); }\nbutton { border: 0; border-radius: .5rem; padding: .75rem 1rem; background: #38bdf8; color: #082f49; font-weight: 700; cursor: pointer; }\n");
    s
}

pub open spec fn javascript_text() -> Seq<char> {
    "document.querySelector('#hello-button')?.addEventListener('click', () => alert('Your deployment is working.'));\n"@
}

fn javascript() -> (r: String)
    ensures
        r@ == javascript_text(),
{
    let mut s = String::from_str("document.querySelector('#hello-button')?.addEventListener('click', () => alert('Your deployment is working.'));\n");
    s
}

pub open spec fn composer_json_text(name: Seq<char>) -> Seq<char> {
    "{\n  \"name\": \"xamppify/"@ + name + "\",\n  \"type\": \"project\",\n  \"require\": {}\n}\n"@
}

fn composer_json(name: &str) -> (r: String)
    ensures
        r@ == composer_json_text(name@),
{
    let mut s = String::from_str("{\n  \"name\": \"xamppify/");
    s.append(name);
    s.append("\",\n  \"type\": \"project\",\n  \"require\": {}\n}\n");
    s
}

/// The starter files of a new deployment, as `(relative path, content)`
/// pairs, for the chosen framework (`html` for any other value).
pub open spec fn template_files_text(name: Seq<char>, framework: Seq<char>) -> Seq<(Seq<char>, Seq<char>)> {
    let title = title_case_text(name);
    if framework == "php"@ {
        seq![
            ("index.php"@, php_index_text(title)),
            ("assets/styles.css"@, stylesheet_text()),
            ("assets/app.js"@, javascript_text()),
            (".gitignore"@, ".DS_Store\nThumbs.db\n"@),
        ]
    } else if framework == "laravel"@ {
        seq![
            ("index.php"@, laravel_index_text(name, title)),
            ("public/.gitkeep"@, Seq::empty()),
            (".env.example"@, laravel_env_text(name, title)),
            (".gitignore"@, "/vendor\n/node_modules\n/.env\n/storage/logs/*.log\n/public/storage\n"@),
            ("composer.json"@, composer_json_text(name)),
        ]
    } else if framework == "wordpress"@ {
        seq![
            ("wp-config-sample.php"@, wordpress_config_text(name)),
            (".htaccess"@, wordpress_htaccess_text()),
            ("index.php"@, wordpress_index_text()),
            (".gitignore"@, "/wp-content/uploads\n*.log\n"@),
        ]
    } else if framework == "react"@ {
        seq![
            ("index.html"@, react_html_text(title)),
            ("src/main.jsx"@, react_main_text(title)),
            ("src/App.jsx"@, react_app_text()),
            ("src/App.css"@, react_css_text()),
            ("vite.config.js"@, react_vite_config_text()),
            ("package.json"@, react_package_text(name)),
            (".gitignore"@, "node_modules\ndist\n.env\n"@),
        ]
    } else if framework == "node"@ {
        seq![
            ("server.js"@, node_server_text(title)),
            ("package.json"@, node_package_text(name)),
            (".gitignore"@, "node_modules\n.env\n"@),
        ]
    } else {
        seq![
            ("index.html"@, html_index_text(title)),
            ("assets/styles.css"@, stylesheet_text()),
            ("assets/app.js"@, javascript_text()),
            (".gitignore"@, ".DS_Store\nThumbs.db\n"@),
        ]
    }
}

/// A starter file's path: relative, `/`-separated, and never climbing up.
pub open spec fn plain_relative_path(p: Seq<char>) -> bool {
    &&& p.len() > 0
    &&& p[0] != '/'
    &&& forall|i: int| 0 <= i < p.len() ==> #[trigger] p[i] != '\\'
    &&& forall|i: int| 0 <= i < p.len() - 1 ==> !(#[trigger] p[i] == '.' && p[i + 1] == '.')
}

/// Whether the paths of `files` are plain, relative and pairwise distinct,
/// and one of them is `.gitignore`.
pub open spec fn well_laid_out(files: Seq<(Seq<char>, Seq<char>)>) -> bool {
    &&& files.len() > 0
    &&& forall|i: int| 0 <= i < files.len() ==> plain_relative_path(#[trigger] files[i].0)
    &&& forall|i: int, j: int| 0 <= i < j < files.len() ==> #[trigger] files[i].0 != #[trigger] files[j].0
    &&& exists|i: int| 0 <= i < files.len() && #[trigger] files[i].0 == ".gitignore"@
}

proof fn lemma_paths_html(name: Seq<char>)
    ensures
        well_laid_out(template_files_text(name, "html"@)),
{
    reveal_strlit(".gitignore");
    reveal_strlit("assets/app.js");
    reveal_strlit("assets/styles.css");
    reveal_strlit("html");
    reveal_strlit("index.html");
    reveal_strlit("laravel");
    reveal_strlit("node");
    reveal_strlit("php");
    reveal_strlit("react");
    reveal_strlit("wordpress");
    assert("html"@.len() != "php"@.len());
    assert("html"@.len() != "laravel"@.len());
    assert("html"@.len() != "wordpress"@.len());
    assert("html"@.len() != "react"@.len());
    assert("html"@[0] != "node"@[0]);
    let f = template_files_text(name, "html"@);
    assert(f.len() == 4);
    assert(f[0].0 == "index.html"@);
    assert(f[1].0 == "assets/styles.css"@);
    assert(f[2].0 == "assets/app.js"@);
    assert(f[3].0 == ".gitignore"@);
    assert(plain_relative_path(f[0].0));
    assert(plain_relative_path(f[1].0));
    assert(plain_relative_path(f[2].0));
    assert(plain_relative_path(f[3].0));
    assert(f[0].0.len() != f[1].0.len());
    assert(f[0].0.len() != f[2].0.len());
    assert(f[0].0[0] != f[3].0[0]);
    assert(f[1].0.len() != f[2].0.len());
    assert(f[1].0.len() != f[3].0.len());
    assert(f[2].0.len() != f[3].0.len());
}

proof fn lemma_paths_php(name: Seq<char>)
    ensures
        well_laid_out(template_files_text(name, "php"@)),
{
    reveal_strlit(".gitignore");
    reveal_strlit("assets/app.js");
    reveal_strlit("assets/styles.css");
    reveal_strlit("html");
    reveal_strlit("index.php");
    reveal_strlit("laravel");
    reveal_strlit("node");
    reveal_strlit("php");
    reveal_strlit("react");
    reveal_strlit("wordpress");
    assert("php"@.len() != "laravel"@.len());
    assert("php"@.len() != "wordpress"@.len());
    assert("php"@.len() != "react"@.len());
    assert("php"@.len() != "node"@.len());
    let f = template_files_text(name, "php"@);
    assert(f.len() == 4);
    assert(f[0].0 == "index.php"@);
    assert(f[1].0 == "assets/styles.css"@);
    assert(f[2].0 == "assets/app.js"@);
    assert(f[3].0 == ".gitignore"@);
    assert(plain_relative_path(f[0].0));
    assert(plain_relative_path(f[1].0));
    assert(plain_relative_path(f[2].0));
    assert(plain_relative_path(f[3].0));
    assert(f[0].0.len() != f[1].0.len());
    assert(f[0].0.len() != f[2].0.len());
    assert(f[0].0.len() != f[3].0.len());
    assert(f[1].0.len() != f[2].0.len());
    assert(f[1].0.len() != f[3].0.len());
    assert(f[2].0.len() != f[3].0.len());
}

proof fn lemma_paths_laravel(name: Seq<char>)
    ensures
        well_laid_out(template_files_text(name, "laravel"@)),
{
    reveal_strlit(".env.example");
    reveal_strlit(".gitignore");
    reveal_strlit("composer.json");
    reveal_strlit("html");
    reveal_strlit("index.php");
    reveal_strlit("laravel");
    reveal_strlit("node");
    reveal_strlit("php");
    reveal_strlit("public/.gitkeep");
    reveal_strlit("react");
    reveal_strlit("wordpress");
    assert("laravel"@.len() != "php"@.len());
    assert("laravel"@.len() != "wordpress"@.len());
    assert("laravel"@.len() != "react"@.len());
    assert("laravel"@.len() != "node"@.len());
    let f = template_files_text(name, "laravel"@);
    assert(f.len() == 5);
    assert(f[0].0 == "index.php"@);
    assert(f[1].0 == "public/.gitkeep"@);
    assert(f[2].0 == ".env.example"@);
    assert(f[3].0 == ".gitignore"@);
    assert(f[4].0 == "composer.json"@);
    assert(plain_relative_path(f[0].0));
    assert(plain_relative_path(f[1].0));
    assert(plain_relative_path(f[2].0));
    assert(plain_relative_path(f[3].0));
    assert(plain_relative_path(f[4].0));
    assert(f[0].0.len() != f[1].0.len());
    assert(f[0].0.len() != f[2].0.len());
    assert(f[0].0.len() != f[3].0.len());
    assert(f[0].0.len() != f[4].0.len());
    assert(f[1].0.len() != f[2].0.len());
    assert(f[1].0.len() != f[3].0.len());
    assert(f[1].0.len() != f[4].0.len());
    assert(f[2].0.len() != f[3].0.len());
    assert(f[2].0.len() != f[4].0.len());
    assert(f[3].0.len() != f[4].0.len());
}

proof fn lemma_paths_wordpress(name: Seq<char>)
    ensures
        well_laid_out(template_files_text(name, "wordpress"@)),
{
    reveal_strlit(".gitignore");
    reveal_strlit(".htaccess");
    reveal_strlit("html");
    reveal_strlit("index.php");
    reveal_strlit("laravel");
    reveal_strlit("node");
    reveal_strlit("php");
    reveal_strlit("react");
    reveal_strlit("wordpress");
    reveal_strlit("wp-config-sample.php");
    assert("wordpress"@.len() != "php"@.len());
    assert("wordpress"@.len() != "laravel"@.len());
    assert("wordpress"@.len() != "react"@.len());
    assert("wordpress"@.len() != "node"@.len());
    let f = template_files_text(name, "wordpress"@);
    assert(f.len() == 4);
    assert(f[0].0 == "wp-config-sample.php"@);
    assert(f[1].0 == ".htaccess"@);
    assert(f[2].0 == "index.php"@);
    assert(f[3].0 == ".gitignore"@);
    assert(plain_relative_path(f[0].0));
    assert(plain_relative_path(f[1].0));
    assert(plain_relative_path(f[2].0));
    assert(plain_relative_path(f[3].0));
    assert(f[0].0.len() != f[1].0.len());
    assert(f[0].0.len() != f[2].0.len());
    assert(f[0].0.len() != f[3].0.len());
    assert(f[1].0[0] != f[2].0[0]);
    assert(f[1].0.len() != f[3].0.len());
    assert(f[2].0.len() != f[3].0.len());
}

proof fn lemma_paths_react(name: Seq<char>)
    ensures
        well_laid_out(template_files_text(name, "react"@)),
{
    reveal_strlit(".gitignore");
    reveal_strlit("html");
    reveal_strlit("index.html");
    reveal_strlit("laravel");
    reveal_strlit("node");
    reveal_strlit("package.json");
    reveal_strlit("php");
    reveal_strlit("react");
    reveal_strlit("src/App.css");
    reveal_strlit("src/App.jsx");
    reveal_strlit("src/main.jsx");
    reveal_strlit("vite.config.js");
    reveal_strlit("wordpress");
    assert("react"@.len() != "php"@.len());
    assert("react"@.len() != "laravel"@.len());
    assert("react"@.len() != "wordpress"@.len());
    assert("react"@.len() != "node"@.len());
    let f = template_files_text(name, "react"@);
    assert(f.len() == 7);
    assert(f[0].0 == "index.html"@);
    assert(f[1].0 == "src/main.jsx"@);
    assert(f[2].0 == "src/App.jsx"@);
    assert(f[3].0 == "src/App.css"@);
    assert(f[4].0 == "vite.config.js"@);
    assert(f[5].0 == "package.json"@);
    assert(f[6].0 == ".gitignore"@);
    assert(plain_relative_path(f[0].0));
    assert(plain_relative_path(f[1].0));
    assert(plain_relative_path(f[2].0));
    assert(plain_relative_path(f[3].0));
    assert(plain_relative_path(f[4].0));
    assert(plain_relative_path(f[5].0));
    assert(plain_relative_path(f[6].0));
    assert(f[0].0.len() != f[1].0.len());
    assert(f[0].0.len() != f[2].0.len());
    assert(f[0].0.len() != f[3].0.len());
    assert(f[0].0.len() != f[4].0.len());
    assert(f[0].0.len() != f[5].0.len());
    assert(f[0].0[0] != f[6].0[0]);
    assert(f[1].0.len() != f[2].0.len());
    assert(f[1].0.len() != f[3].0.len());
    assert(f[1].0.len() != f[4].0.len());
    assert(f[1].0[0] != f[5].0[0]);
    assert(f[1].0.len() != f[6].0.len());
    assert(f[2].0[8] != f[3].0[8]);
    assert(f[2].0.len() != f[4].0.len());
    assert(f[2].0.len() != f[5].0.len());
    assert(f[2].0.len() != f[6].0.len());
    assert(f[3].0.len() != f[4].0.len());
    assert(f[3].0.len() != f[5].0.len());
    assert(f[3].0.len() != f[6].0.len());
    assert(f[4].0.len() != f[5].0.len());
    assert(f[4].0.len() != f[6].0.len());
    assert(f[5].0.len() != f[6].0.len());
}

proof fn lemma_paths_node(name: Seq<char>)
    ensures
        well_laid_out(template_files_text(name, "node"@)),
{
    reveal_strlit(".gitignore");
    reveal_strlit("html");
    reveal_strlit("laravel");
    reveal_strlit("node");
    reveal_strlit("package.json");
    reveal_strlit("php");
    reveal_strlit("react");
    reveal_strlit("server.js");
    reveal_strlit("wordpress");
    assert("node"@.len() != "php"@.len());
    assert("node"@.len() != "laravel"@.len());
    assert("node"@.len() != "wordpress"@.len());
    assert("node"@.len() != "react"@.len());
    let f = template_files_text(name, "node"@);
    assert(f.len() == 3);
    assert(f[0].0 == "server.js"@);
    assert(f[1].0 == "package.json"@);
    assert(f[2].0 == ".gitignore"@);
    assert(plain_relative_path(f[0].0));
    assert(plain_relative_path(f[1].0));
    assert(plain_relative_path(f[2].0));
    assert(f[0].0.len() != f[1].0.len());
    assert(f[0].0.len() != f[2].0.len());
    assert(f[1].0.len() != f[2].0.len());
}

/// Law: the starter files of every deployment are laid out safely: at least
/// one file, plain relative `/`-separated paths that never climb up, no path
/// twice, a `.gitignore` among them; and a framework without a template gets
/// the HTML starter.
pub proof fn law_template_files_laid_out(name: Seq<char>, framework: Seq<char>)
    ensures
        well_laid_out(template_files_text(name, framework)),
        !frameworks().contains(framework) ==> template_files_text(name, framework)
            == template_files_text(name, "html"@),
{
    reveal_strlit("html"); reveal_strlit("php"); reveal_strlit("laravel"); reveal_strlit("wordpress");
    reveal_strlit("react"); reveal_strlit("node");
    if framework == "php"@ {
        lemma_paths_php(name);
    } else if framework == "laravel"@ {
        lemma_paths_laravel(name);
    } else if framework == "wordpress"@ {
        lemma_paths_wordpress(name);
    } else if framework == "react"@ {
        lemma_paths_react(name);
    } else if framework == "node"@ {
        lemma_paths_node(name);
    } else {
        lemma_paths_html(name);
        assert("html"@.len() != "php"@.len());
        assert("html"@.len() != "laravel"@.len());
        assert("html"@.len() != "wordpress"@.len());
        assert("html"@.len() != "react"@.len());
        assert("html"@[0] != "node"@[0]);
    }
    if !frameworks().contains(framework) {
        assert(frameworks()[1] == "php"@);
        assert(frameworks()[2] == "laravel"@);
        assert(frameworks()[3] == "wordpress"@);
        assert(frameworks()[4] == "react"@);
        assert(frameworks()[5] == "node"@);
    }
}

pub open spec fn file_view(f: (String, String)) -> (Seq<char>, Seq<char>) {
    (f.0@, f.1@)
}

fn file(path: &str, content: String) -> (r: (String, String))
    ensures
        file_view(r) == (path@, content@),
{
    (String::from_str(path), content)
}

/// The starter files of a new deployment (see `template_files_text`).
pub fn template_files(name: &str, framework: &str) -> (r: Vec<(String, String)>)
    ensures
        r@.len() == template_files_text(name@, framework@).len(),
        forall|i: int|
            0 <= i < r@.len() ==> file_view(#[trigger] r@[i]) == template_files_text(
                name@,
                framework@,
            )[i],
{
    let title = title_case(name);
    let t = title.as_str();
    let f = chars_of(framework);
    let mut r: Vec<(String, String)> = Vec::new();
    if chars_eq(&f, &chars_of("php")) {
        r.push(file("index.php", php_index(t)));
        r.push(file("assets/styles.css", stylesheet()));
        r.push(file("assets/app.js", javascript()));
        r.push(file(".gitignore", String::from_str(".DS_Store\nThumbs.db\n")));
    } else if chars_eq(&f, &chars_of("laravel")) {
        r.push(file("index.php", laravel_index(name)));
        r.push(file("public/.gitkeep", String::new()));
        r.push(file(".env.example", laravel_env(name)));
        r.push(file(".gitignore", String::from_str("/vendor\n/node_modules\n/.env\n/storage/logs/*.log\n/public/storage\n")));
        r.push(file("composer.json", composer_json(name)));
    } else if chars_eq(&f, &chars_of("wordpress")) {
        r.push(file("wp-config-sample.php", wordpress_config(name)));
        r.push(file(".htaccess", wordpress_htaccess()));
        r.push(file("index.php", wordpress_index()));
        r.push(file(".gitignore", String::from_str("/wp-content/uploads\n*.log\n")));
    } else if chars_eq(&f, &chars_of("react")) {
        r.push(file("index.html", react_html(t)));
        r.push(file("src/main.jsx", react_main(t)));
        r.push(file("src/App.jsx", react_app()));
        r.push(file("src/App.css", react_css()));
        r.push(file("vite.config.js", react_vite_config()));
        r.push(file("package.json", react_package(name)));
        r.push(file(".gitignore", String::from_str("node_modules\ndist\n.env\n")));
    } else if chars_eq(&f, &chars_of("node")) {
        r.push(file("server.js", node_server(t)));
        r.push(file("package.json", node_package(name)));
        r.push(file(".gitignore", String::from_str("node_modules\n.env\n")));
    } else {
        r.push(file("index.html", html_index(t)));
        r.push(file("assets/styles.css", stylesheet()));
        r.push(file("assets/app.js", javascript()));
        r.push(file(".gitignore", String::from_str(".DS_Store\nThumbs.db\n")));
    }
    assert(r@.len() == template_files_text(name@, framework@).len());
    r
}

} // verus!
