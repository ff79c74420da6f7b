# idk, verified

The ID3 Knife edits MP3 ID3v2 tags: copy one field into another, set, clear,
merge variant values, find files by their tags, show tags, and apply edits
made to `idk show --json` output.

- `src/` is the library, checked by Verus. A tag is read and changed only
  through the `id3` crate; the library names what a tag holds
  (`id3_tag::tag_frames`, `id3_tag::tag_version`) and states, for every call
  into `id3`, what it does to those frames. Each operation works out a plan
  (what would change) and its contract says exactly which frames the file
  ends up with and which changes are reported. `laws.rs` and `field_laws.rs`
  hold the properties that relate operations: what a read gives after a write
  or a removal, that writes keep every other frame, that applying unedited
  `show` output changes nothing, that `show` keys are unique, and others.
- `app/` is the command-line program around it: argument parsing, reading and
  writing files, globbing and directory walks, the progress bar, concurrency,
  and the serde/schemars/clap impls on copies of the library's types.
- `tests/` exercise the library on tags built in memory.
