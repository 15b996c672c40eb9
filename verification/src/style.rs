//! The stylesheet that every page embeds.

use vstd::prelude::*;

verus! {

/// The stylesheet. It is the same for every page.
pub const CSS: &'static str = ":root { --bg: #1c1f26; --bg-alt: #2b303b; --text: #c0c5ce; --text-alt: #8f96a3; --accent: #8fa1b3; }\nbody { background: var(--bg); color: var(--text); font-family: sans-serif; margin: 0; }\na { color: var(--accent); }\n.navbar { background: var(--bg-alt); padding: 1ex 2ex; }\n.nav-container { display: flex; gap: 2ex; }\n.nav-button { text-decoration: none; font-weight: bold; }\n.md-body { line-height: 1.5; }\n.md-content-container { max-width: 80ex; margin: 2ex auto; padding: 0 2ex; }\n.md-title { font-size: x-large; }\n.md-codeblock { margin: 2ex 0; overflow-x: auto; }\n.md-codeblock pre { padding: 1ex; margin: 0; }\n#music-page-contents { max-width: 120ex; margin: 2ex auto; padding: 0 2ex; }\n.music-nav { display: flex; gap: 1ex; align-items: center; }\n.button { padding: 0.5ex 1ex; background: var(--bg-alt); text-decoration: none; }\n.label { color: var(--text-alt); }\n.recommendation-list { list-style: none; padding: 0; }\n.album-grid-container { display: grid; grid-template-columns: 250px 1fr; gap: 2ex; margin-bottom: 2ex; }\n.album-grid-info { display: grid; grid-template-columns: max-content 1fr; gap: 0.5ex 1ex; align-content: start; }\n";

} // verus!
