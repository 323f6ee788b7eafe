# lapidary

The rules of Lapidary, a self-hosted library of 3D models, as a Verus-verified Rust library,
with the desktop program around it.

`src/` holds the logic, each function with a `requires`/`ensures` contract proved by Verus:

- what a watched folder sends and when (`folder`, `watch`, `path_map`, `unix_path`): a file is
  hashed exactly when the latest change has settled, a file nobody touches is never hashed, and a
  source path is plain names under the folder that name the file again when joined back onto it;
- the desktop side of check-out and `lapidary://` links (`agent`, `checkout`, `desktop`, `link`);
- the server's checks before it writes (`upload`, `moves`, `filters`, `fields`, `tags`,
  `records`, `locks`, `sharing`, `role`, `server`);
- downloads, fetched images and their bytes (`download`, `fetch`, `images`, `digest`, `json`);
- text and numbers as the rest use them (`text`, `number`, `order`).

Where the logic calls an outside crate (`blake3`, `url`, `image`), the call sits in
a small wrapper whose contract states what that crate's source shows, and the verified code around
it is proved against that contract.

`app/` is the `lapidary` desktop program: argument handling, files, HTTP and the loop that
watches a folder. It hands the library plain values and acts on what comes back.

`tests/` runs the library on concrete values.
