# signai

Tools for recognising the sign alphabet (letters A-Z and digits 0-9) from
images.

- `src/` is the verified library: class labels of dataset folders, the layout
  of the dataset CSV files (header, five-decimal pixel fields, records), the
  64x64 resizing of images, white-pixel counts, model configuration choices,
  one-vs-all class bookkeeping and the reshaping of flat sample buffers.
- `app/` holds the models themselves (linear models, perceptrons, RBF networks,
  kernel SVMs), which compute on floating-point numbers, their C interface,
  and the file and folder handling of dataset generation.
- `tests/` runs the library on concrete values.
