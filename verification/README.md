# blent_host

The host side of Blent, which turns an Android tablet into a second screen and
pen tablet for a Linux desktop. This crate holds the parts of the host whose
behaviour can be stated and proved with Verus:

- `annex_b`, `framing`, `probe_format`: scanning H.264/HEVC
  Annex B bitstreams for start codes and parameter sets, reading the framed
  packet stream that the encoder writes (header lines, Adler-32 checked
  payloads, monotonic timestamps), and checking probed stream profiles.
- `edid`: building the 128-byte EDID block for a virtual display mode, with
  its checksum and the decoded sizes proved.
- `frame_copy`: copying NV12 planes row by row into padded buffers.
- `probe_frame`: the encoder probe's reference picture and its timing
  summary (95th-percentile packet gap).
- `device_tasks`, `discovery`, `controllers`, `gpu`, `helper`: the state
  machines that schedule per-tablet work, follow attached devices, hand the
  input devices to one controller at a time, and pick the capture path.
- `input`: session-token authentication and admission of input
  connections, and routing each control message from the tablet to the
  device, settings and latency calls it makes; `controllers` decides each
  step of a controller connection.
- `idle`: adaptive idle, matching render acknowledgements against encoded
  picture timings and deciding the helper's cadence lease.
- `cli`, `encoding`, `codecs`, `config`: encoder catalogue, the encoder
  command line, and the saved settings with their bounds.
- `doctor`, `report`, `desktop`, `text`, `number`, `decode`, `fifo_reset`:
  the diagnostic report, each finding stated as the exact lines it adds.

`app/` is the executable around it (`doctor`, `edid`, `encoder-command`): it
reads files, runs commands and prints, and hands plain values to the library.
`tests/` exercises the library through its public interface.
