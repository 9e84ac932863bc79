# cargo_prod

`cargo prod` packages a Rust application for Linux distributions: a Debian
package, AppImages, and an xbps build template.

- `src/` is the verified library (Verus): the command line and the packagers
  it selects, the options and the order of work of a `.deb` build (a state
  machine with proofs of the order Debian requires), the AppImage settings and
  file names, the xbps template, and the text utilities they rest on.
- `app/` is the program around it: argument parsing with clap, the cargo-deb
  calls that the `.deb` state machine asks for, and the file system and
  process work of the AppImage packager.
- `tests/` runs the library on concrete inputs.
