//! The page from which a session is started, tried and ended.

use vstd::prelude::*;

verus! {

/// The page.
pub const INDEX_HTML: &'static str = r#"<!doctype html>
<html>
<head><meta charset="utf-8"><title>DBSC hello-world</title>
<style>
  body { font: 15px/1.5 system-ui, sans-serif; max-width: 720px; margin: 40px auto; padding: 0 16px; }
  button { font-size: 15px; padding: 8px 14px; margin-right: 8px; cursor: pointer; }
  pre { background: #111; color: #b7f; padding: 12px; border-radius: 8px; white-space: pre-wrap; }
  code { background: #eee; padding: 1px 4px; border-radius: 4px; }
</style>
</head>
<body>
  <h1>DBSC hello-world</h1>
  <p>Open <b>DevTools &rarr; Network</b>, then:</p>
  <ol>
    <li><b>Start session</b> submits a form to <code>/start-form</code>; the browser then
        automatically POSTs <code>/dbsc/register</code> and later <code>/dbsc/refresh</code>.
        Watch the terminal.</li>
    <li><b>Call protected</b> checks whether the device-bound cookie rode the request —
        <code>authenticated=true</code> once a session is registered.</li>
  </ol>
  <p>
    <!-- This is a real form-POST navigation (the page then shows /start-form's 200) ON PURPOSE.
         The Secure-Session-Registration header must ride the response to a top-level NAVIGATION;
         Chrome silently IGNORES it on a fetch()/XHR response, so don't switch this to fetch().
         In a real app this is just your normal login response (a 200, like the Chrome docs). -->
    <form method="POST" action="/start-form" style="display:inline">
      <button type="submit">Start session</button>
    </form>
    <button onclick="callProtected()">Call protected</button>
    <a href="/logout"><button type="button">Logout (revoke)</button></a>
  </p>
  <pre id="log">(server log is in your terminal; browser log here)</pre>
<script>
const log = (m) => { document.getElementById('log').textContent =
  new Date().toLocaleTimeString() + '  ' + m + '\n' + document.getElementById('log').textContent; };

async function callProtected() {
  const r = await fetch('/api/protected');
  const j = await r.json();
  log('GET /api/protected -> authenticated=' + j.authenticated);
}
</script>
</body>
</html>
"#;

/// The page. The invitation does not come with it, but with the reply to its form.
pub fn index() -> (r: &'static str)
    ensures
        r@ == INDEX_HTML@,
{
    INDEX_HTML
}

} // verus!
