# xr_passthrough_layer

An OpenXR API layer that adds camera passthrough. The decisions of the layer are a library whose
contracts Verus proves; the calls to OpenXR, Vulkan and the camera stand around it.

- `src/` is the library.
  - `registry`, `store`: the handles that the layer knows, who owns whom, and what is attached to
    each.
  - `loader`, `types`, `extensions`, `instance`, `version`: the negotiation with the loader, and
    what becomes of the requests of an application before they reach the runtime.
  - `session`, `passthrough`, `camera_setup`: sessions, their frames, and the camera that they
    show.
  - `camera`, `device`, `pipeline`: the camera's frames and their way to the screen.
  - `xr`, `config`, `viewer`, `install`: the client, the window that shows the camera, and the
    installation.
  - `codegen`: what the layer's macros generate from the OpenXR registry.
  - `text`, `textmap`, `lists`, `geometry`, `xr_result`: what the others share.
- `app/` makes the outside calls. Most of its functions perform a step that the library asked for
  and hand back what came of it.
- `tests/` runs the library.

What is taken for granted of outside crates stands in `store`, `text`, `types`, `version`, `camera`
and `codegen::plan`, each item with the outside function that it speaks of. The proof functions
whose names begin with `law_` state what holds of several functions together.

Besides the library the layer needs files in `xr_passthrough_layer` below one of the user's data
directories: `splash.png`, the compiled shaders, and `camera.json` with the calibration of the
camera, if there is one.
