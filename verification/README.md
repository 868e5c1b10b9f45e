# Sylva

Fences on the desktop: the icons of the desktop are grouped into fences that are drawn over
it, can be moved, resized and docked, and mirror the folders they are linked to.

- `src/` is the library. It holds the desk and its rules, the geometry of fences, what an
  event changes and what has to be done after it, the picture of every moment as a list of
  strokes, and the steps of putting the program on a computer and taking it off. It is
  written in Verus: every function states what it returns, and the statements are proved.
- `tests/` runs the library on concrete values.
- `app/` is the program around it: windows, files, the graphics devices, the clipboard and
  the registry of Windows. It reads what the system tells, hands it to the library as plain
  values and carries out what comes back.

Distances are of a type that implements `scalar::Scalar`: whole pixels in the proofs that
need an order, single precision in the program.

The proved functions whose names begin with `law_` state what holds of the library as a
whole, such as that a fence that is moved keeps its size, ends on the screen and on no other
fence where there is room for that, or that a desk that was kept comes back as it was.
