# rcdir

The core of a colorized directory lister, verified with Verus.

`src/` holds the library: command-line parsing, the color and icon
configuration with its overrides from the `RCDIR` environment variable and
the `.rcdirconfig` file, display-style resolution, console output with color
markers, sorting of listing entries, splitting and grouping of file masks,
path shortening, decoding of configuration and profile files, the
decisions of a recursive or tree listing (which subdirectories to enter,
the depth limit, which entries the tree shows), and the PowerShell alias
block with the steps of the set and remove wizards.  Public functions
state in their contracts what they return or change.  Where the result
rests on the file system or the fonts, the contract says which question
goes out and what comes back for each answer.  Sorting is stated in full
(order by every sort attribute, stable) for a collation that orders
names as a total preorder, such as the library's own
`OrdinalIgnoreCaseCollator`.

`app/main.rs` is the program around it: it reads the arguments, the
environment, the bytes of the configuration file and the directories,
answers the library's file-system questions, walks subdirectories for
`/s` and `--tree` as the library decides, and writes the gathered console
output.  Reading the console width, probing Nerd Fonts, finding the
PowerShell profiles and prompting in the console need Windows; this
program uses the `COLUMNS` width, reports no Nerd Font, and refuses the
alias commands.

`tests/` exercises the library from outside.
