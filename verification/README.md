# mogen_studio

The panels of an editor for procedural 3D scenes: what each panel shows for the
state of the open file, what each control does to the source and to the undo
stack, and the scene wizard that leads from a prompt to an assembled scene.

- `src/` is the library. Every function states what it returns or changes, and
  the statements are proved by Verus. Laws that relate several functions are
  the proof functions whose names start with `law_`.
- `app/` draws the panels with egui and does the files, dialogs and threads. The
  compiler, the viewport and the model clients are reached through the trait
  `Host` in `app/host.rs`.
- `tests/` runs the library on concrete values.

Numbers that come from a scene reach the library as the text they are written
as, or as the bit pattern of a single-precision number where they are compared.

| module | what it holds |
| --- | --- |
| `studio`, `scene`, `span`, `ids` | the state of the editor and the compiled scene |
| `edits`, `rewrite`, `naming`, `literal` | edits of the source text |
| `paths`, `text`, `pick` | paths, text and lists |
| `inspector` | the inspector of the selected node |
| `panels` | the other panels |
| `wizard` | the scene wizard |
