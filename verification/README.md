# WIM

The decisions of WIM, a desktop client for a warehouse that sells on eBay, as a library that Verus
verifies, and the desktop program around it.

- `src/` is the library. It sends nothing and reads no file: it puts requests together as plain
  values, says what the caller is told of each outcome, runs the "Connect with eBay" sign-in as a
  machine of stages and events, keeps the carriers' tokens, reads replies, and decides which files
  are photos and which paths may be touched. Each function states what it returns for every input,
  or, where chance or the machine's clock decides, what was drawn or read for it. The functions
  named `law_...` state what holds of several of them together.
- `src/outside.rs` holds every call whose contract is believed rather than proved: base64, bcrypt,
  rand, serde_json, and the few parts of std that Verus knows nothing of.
- `tests/` runs the library on concrete values.
- `app/` is the Tauri program: commands, HTTP, files, dialogs, the credential store and the local
  listener. It hands the library plain values and does what it is told.

| module     | subject                                                             |
|------------|---------------------------------------------------------------------|
| `text`     | searching, cutting, trimming and replacing                          |
| `numbers`  | decimal and hexadecimal                                             |
| `percent`  | percent-encoding and query strings                                  |
| `encoding` | base64: credentials, data URLs, uploads                             |
| `http`     | requests, JSON documents, outcomes and reports                      |
| `hosts`    | eBay's hosts, in production and in the sandbox                      |
| `tokens`   | token replies and the token cache                                   |
| `ebay`     | token requests, REST and Trading calls, pictures, the token probe   |
| `login`    | the sign-in with eBay                                               |
| `carriers` | tracking with USPS, UPS and FedEx                                   |
| `shipping` | rates, labels and trackers of Shippo and EasyPost                   |
| `services` | Supabase, InventoryIQ and Apify                                     |
| `photos`   | photo folders and guarded paths                                     |
| `accounts` | passwords and secrets                                               |
