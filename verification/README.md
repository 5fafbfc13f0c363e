# asc-sync

Keeps App Store Connect in step with a configuration file: identifiers, devices, certificates and
profiles, the signing bundle that a team shares, the store pages of an app with their texts,
prices, media and reviews, and screenshots that are rendered from HTML templates.

- `src/` is the library. Every item of it is verified with Verus: what is compared, what is recorded
  as a change, which requests are sent, how bundles are packed, opened and merged, how a configuration
  is checked, how templates and images are put together.
- `app/` is the program around it: the command line, files, the network, the keychain and the browser.
- `tests/` runs the library on concrete values.

The library calls other crates in few places (`age`, `tar`, `image`, `jsonwebtoken`, `plist`, `qrcode`
and the like). Each call stands in a small function whose doc comment says what is taken for granted
of it.
