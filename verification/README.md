# dpm

dpm (Docker Package Manager) runs programs as Docker containers.

- `src/` is the library, verified with Verus: reading the command line
  (`cli::options`, `cli`, `cli::install`, `cli_lib`), finding the image of a
  program in the sources (`sources`), deciding and recording installations
  (`cli::install`, `configuration_manager`), the arguments of `docker run`
  (`cli::run`), and decoding process output (`program_execution`, `text`).
- `app/` is the `dpm` binary: it runs Docker, reads and writes the
  configuration and the sources file, downloads the sources, and prints.
- `tests/` exercises the library on concrete inputs.
