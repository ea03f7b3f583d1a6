# d_tweaks

A browser extension that redraws the pages of d-anime store with its own UI: a card
grid, a rearranged top page, infinite scroll, a float player with niconico comments
(danmaku), and a float search.

- `src/` is the library, verified with Verus: the settings tables and how stored
  values are read, which CSS and header rules follow the features, the comment cache
  and its index, how a niconico video is matched to an episode, the request and the
  order of the comments, the parsing of the site's texts (episode numbers, pagers,
  widths, thumbnail URLs, work details), the state of the search and of the
  infinite scroll, and the texts of the UI.
- `tests/` runs the library on concrete values.
- `app/` is the extension around it: the service worker, the content script and the
  settings page. It reads the DOM, calls the `chrome` API and the network, and hands
  the library plain values. Drawing in pixels and media time in seconds (`f64`) stay
  there too.
