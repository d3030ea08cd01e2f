# daily_wallpaper

Fetches the daily wallpapers of Bing, Windows Spotlight, NASA's Astronomy Picture of the Day and
NASA's MODIS image of the day, keeps them in a cache of one directory per day, and applies one of
them to macOS desktops: chosen by the user, or by a job that launchd runs.

`src/` is the library, verified with Verus. What needs files, the network, other programs or the
screen is written there as machines: a function starts a machine with its first action, a step
function takes the machine's stage and the event that the action brought about, and gives the
next stage and action. Their contracts say which action follows which event; the laws beside
them speak of whole courses.

- `sources` asks the sources, `download` transfers an image, `gather` asks all sources in turn.
- `cache` and `days` find wallpapers in the cache and decide what is pruned, `favorites` keeps
  copies; `favorite_names` and `shelf` hold the laws of their names and of their directory.
- `session`, `chooser`, `favorites_menu`, `apply`, `auto_update`, `info` and `launchd` are the
  commands.
- `config` turns the command line and the configuration file into settings.
- `bump` raises the version of a package.
- `text`, `number`, `path`, `date`, `form`, `xml`, `json`, `html`, `property_list` and `checksum`
  are what the rest is made of; the calls of other crates stand there.

`app/` is the program: it carries out the actions of the machines.
