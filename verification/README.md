# batch_image_processing

A desktop tool that converts folders of photos to JPEG or PDF in batch
(rotating them and stamping text such as the file name on them), and a
"numbering" mode for tagging event photos with the number seen on them
(optionally suggested by OCR) and moving each photo into a folder per number.

Layout:

- `src/` is the library, verified with Verus:
  - `text`: Unicode whitespace, trimming, ASCII digits, decimal formatting.
  - `sort`: parsing a folder name from a numbered file stem, planning the
    sort of a folder into number folders, and summing up a run.
  - `numbering`: the numbering workflow as a state machine (confirm a
    number, undo, navigate), with its laws.
  - `ocr`: picking the most likely number out of OCR detections, and
    locating the OCR model files.
  - `image_ops`: rotation, JPEG decoding and encoding, thumbnails, the
    messages of image I/O, placement of a text stamp, the stamp's text
    template, PDF object layout, which files count as images.
  - `cache`: the least-recently-used cache of thumbnails, with its laws.
  - `batch`: output names and reports of a batch run.
  - `paths`: filesystem paths as opaque values, and the path operations
    (join, file name, display) the library relies on.
- `app/` is the application around it: the GUI, file and folder access,
  font rendering, the OCR engine, the lock around the thumbnail cache and
  the parallel loops. The overlay font (`assets/Inter-Regular.ttf`) is
  read at run time from beside the executable or the working folder.
- `tests/` exercises the library on concrete values.
