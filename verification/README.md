# DataBeam

A desktop program that sends files, folders and texts with croc and sendme. In its
combined mode sendme carries the data while croc hands over the long ticket under a
short code.

`src/` is the verified library, `app/` the windows, processes and files around it.
What the library decides is written as contracts over mathematical models; what is to
be done outside comes back as values (`Effect`, `UpdateEffect`, `TrayEffect`).

| Modules | What they hold |
| --- | --- |
| `text`, `wide`, `binary64`, `numerals`, `units` | characters, and floating-point numbers computed exactly with integers |
| `progress`, `croc`, `sendme`, `messages`, `facts`, `reader` | what the lines of the tools say |
| `display`, `panels`, `status`, `home` | what is shown |
| `transfer`, `sender`, `receiver` | what a running transfer reports |
| `metrics`, `state`, `session`, `engine` | a transfer and the messages that move it |
| `workspace`, `desk`, `drops`, `paths`, `settings`, `cleanup` | what the user lays out, starts, tries again and keeps |
| `tools`, `archive`, `installer`, `update` | finding, fetching and updating croc |
| `tray`, `window`, `pictures` | the icon, the window, pictures to draw |
| `laws` | what holds of a transfer whatever messages come |

Times and sizes are doubles. The library holds them as `Magnitude` and `Reading`, made
from and turned into bits; sums, products and quotients are rounded as the hardware
rounds them.

The trusted items are few: UTF-8 decoding and lower case of the standard library, what
the system says of paths with a prefix, gzip, tar and zip archives, QR codes and PNG
pictures.
